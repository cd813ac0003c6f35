//! The driver: every person once, in the order given, through normalisation,
//! aggregation and the report table.

use crate::aggregate::{aggregate, aggregate_spec, has_match, Membership};
use crate::identity::{hex_of, lemma_hex_injective, normalize, PersonId};
use crate::report::{appended, ReportTable, RowView};
use crate::user::User;
use vstd::prelude::*;

verus! {

/// The report over `users`, in their order, against the memberships `ms`.
pub open spec fn report_of(users: Seq<User>, ms: Seq<Membership>) -> Seq<RowView>
    decreases users.len(),
{
    if users.len() == 0 {
        Seq::empty()
    } else {
        let u = users.last();
        appended(
            report_of(users.drop_last(), ms),
            hex_of(u._id.bytes@),
            u.name@,
            aggregate_spec(ms, u._id),
        )
    }
}

/// Builds the report: for each person in turn, its identity forms, its
/// aggregation, and a row where it has at least one matching membership.
pub fn build_report(users: &Vec<User>, ms: &Vec<Membership>) -> (r: ReportTable)
    ensures
        r@ == report_of(users@, ms@),
{
    let mut table = ReportTable::new();
    let mut i: usize = 0;
    while i < users.len()
        invariant
            i <= users@.len(),
            table@ == report_of(users@.take(i as int), ms@),
        decreases users@.len() - i,
    {
        let u = &users[i];
        let forms = normalize(&u._id);
        let result = aggregate(&forms, ms);
        assert(forms.native == u._id) by {
            assert(forms.native.bytes =~= u._id.bytes);
        }
        table.append(forms.hex, u.name.clone(), result);
        assert(users@.take(i + 1).drop_last() =~= users@.take(i as int));
        i = i + 1;
    }
    assert(users@.take(i as int) =~= users@);
    table
}

/// A person with no matching membership aggregates to nothing, and no row
/// of the report carries its identity.
pub proof fn absent_person_has_no_row(users: Seq<User>, ms: Seq<Membership>, p: PersonId)
    requires
        !has_match(ms, p),
    ensures
        aggregate_spec(ms, p) is None,
        forall|i: int| 0 <= i < report_of(users, ms).len() ==> #[trigger] report_of(users, ms)[i].id != hex_of(p.bytes@),
    decreases users.len(),
{
    if users.len() > 0 {
        let pre = users.drop_last();
        let u = users.last();
        absent_person_has_no_row(pre, ms, p);
        if has_match(ms, u._id) && hex_of(u._id.bytes@) == hex_of(p.bytes@) {
            lemma_hex_injective(u._id.bytes@, p.bytes@);
            assert(u._id.bytes =~= p.bytes);
            assert(u._id == p);
        }
        let rows = report_of(users, ms);
        let prev = report_of(pre, ms);
        assert forall|i: int| 0 <= i < rows.len() implies #[trigger] rows[i].id != hex_of(p.bytes@) by {
            if i < prev.len() {
                assert(rows[i] == prev[i]);
            }
        }
    }
}

/// Two runs over persons with the same identities and names, in the same
/// order, and over the same memberships, give the same report.
pub proof fn report_is_deterministic(u1: Seq<User>, u2: Seq<User>, ms: Seq<Membership>)
    requires
        u1.len() == u2.len(),
        forall|i: int| 0 <= i < u1.len() ==> (#[trigger] u1[i])._id == u2[i]._id && u1[i].name@ == u2[i].name@,
    ensures
        report_of(u1, ms) == report_of(u2, ms),
    decreases u1.len(),
{
    if u1.len() > 0 {
        let (p1, p2) = (u1.drop_last(), u2.drop_last());
        assert forall|i: int| 0 <= i < p1.len() implies (#[trigger] p1[i])._id == p2[i]._id && p1[i].name@ == p2[i].name@ by {
            assert(p1[i] == u1[i] && p2[i] == u2[i]);
        }
        report_is_deterministic(p1, p2, ms);
        assert(u1.last()._id == u2.last()._id);
    }
}

} // verus!
