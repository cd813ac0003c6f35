//! Per-person aggregation of activity memberships: the memberships that
//! refer to a person, under either identity form, summed by category.
//!
//! Durations are held in thousandths of the unit, as `u64`; sums are `u128`,
//! which holds the sum of any number of durations that a `Vec` can hold.

use crate::identity::{
    canonical, lemma_refers_to_canonical, matches_forms, refers_to, IdentityForms, MemberRef,
    PersonId,
};
use vstd::prelude::*;

verus! {

/// The category of a membership.
#[derive(Clone, Copy, Debug, PartialEq, Eq, Structural)]
pub enum Category {
    OnCampus,
    OffCampus,
    SocialPractice,
    Other,
}

/// The category that a mode tag names.
pub open spec fn category_spec(tag: Seq<char>) -> Category {
    if tag == "on-campus"@ {
        Category::OnCampus
    } else if tag == "off-campus"@ {
        Category::OffCampus
    } else if tag == "social-practice"@ {
        Category::SocialPractice
    } else {
        Category::Other
    }
}

/// Reads the category of a mode tag; an unknown tag is `Other`.
pub fn category_of(tag: &String) -> (c: Category)
    ensures
        c == category_spec(tag@),
{
    let on: String = "on-campus".to_owned();
    let off: String = "off-campus".to_owned();
    let social: String = "social-practice".to_owned();
    if *tag == on {
        Category::OnCampus
    } else if *tag == off {
        Category::OffCampus
    } else if *tag == social {
        Category::SocialPractice
    } else {
        Category::Other
    }
}

/// One person's membership in one activity.
pub struct Membership {
    pub member: MemberRef,
    pub mode: String,
    /// Thousandths of the unit.
    pub duration: u64,
}

/// The totals of one person.
#[derive(Clone, Copy, Debug, PartialEq, Eq, Structural)]
pub struct Time {
    pub on_campus: u128,
    pub off_campus: u128,
    pub social_practice: u128,
    pub total: u128,
}

/// The membership refers to `id` and falls in category `c`.
pub open spec fn counts_in(m: Membership, id: PersonId, c: Category) -> bool {
    refers_to(m.member, id) && category_spec(m.mode@) == c
}

/// Sum of the durations of the memberships of `id` in category `c`.
pub open spec fn sum_in(ms: Seq<Membership>, id: PersonId, c: Category) -> int
    decreases ms.len(),
{
    if ms.len() == 0 {
        0
    } else {
        sum_in(ms.drop_last(), id, c) + if counts_in(ms.last(), id, c) {
            ms.last().duration as int
        } else {
            0
        }
    }
}

/// Sum of the durations of all memberships of `id`, whatever their category.
pub open spec fn sum_all(ms: Seq<Membership>, id: PersonId) -> int
    decreases ms.len(),
{
    if ms.len() == 0 {
        0
    } else {
        sum_all(ms.drop_last(), id) + if refers_to(ms.last().member, id) {
            ms.last().duration as int
        } else {
            0
        }
    }
}

/// Some membership refers to `id`.
pub open spec fn has_match(ms: Seq<Membership>, id: PersonId) -> bool {
    exists|i: int| 0 <= i < ms.len() && refers_to(ms[i].member, id)
}

/// The totals of `id` over `ms`.
pub open spec fn totals_spec(ms: Seq<Membership>, id: PersonId) -> Time {
    Time {
        on_campus: sum_in(ms, id, Category::OnCampus) as u128,
        off_campus: sum_in(ms, id, Category::OffCampus) as u128,
        social_practice: sum_in(ms, id, Category::SocialPractice) as u128,
        total: sum_all(ms, id) as u128,
    }
}

/// The on-campus, off-campus and social-practice sums of `id`, added up.
pub open spec fn named_sum(ms: Seq<Membership>, id: PersonId) -> int {
    sum_in(ms, id, Category::OnCampus) + sum_in(ms, id, Category::OffCampus) + sum_in(
        ms,
        id,
        Category::SocialPractice,
    )
}

/// What aggregation gives for `id`: nothing where no membership refers to
/// it, else its totals.
pub open spec fn aggregate_spec(ms: Seq<Membership>, id: PersonId) -> Option<Time> {
    if has_match(ms, id) {
        Some(totals_spec(ms, id))
    } else {
        None
    }
}

/// The three named sums never exceed the grand total, and the grand total is
/// their sum plus the durations in unknown categories.
pub proof fn lemma_sums_split(ms: Seq<Membership>, id: PersonId)
    ensures
        sum_all(ms, id) == sum_in(ms, id, Category::OnCampus) + sum_in(ms, id, Category::OffCampus)
            + sum_in(ms, id, Category::SocialPractice) + sum_in(ms, id, Category::Other),
        0 <= sum_in(ms, id, Category::Other),
        0 <= sum_in(ms, id, Category::OnCampus),
        0 <= sum_in(ms, id, Category::OffCampus),
        0 <= sum_in(ms, id, Category::SocialPractice),
    decreases ms.len(),
{
    if ms.len() > 0 {
        lemma_sums_split(ms.drop_last(), id);
    }
}

/// Aggregates the memberships that refer to the person of `forms`, under
/// either identity form: `None` where there is none, else the sums by
/// category and the grand total.
pub fn aggregate(forms: &IdentityForms, ms: &Vec<Membership>) -> (r: Option<Time>)
    requires
        forms.wf(),
    ensures
        r == aggregate_spec(ms@, forms.native),
        r is None <==> !has_match(ms@, forms.native),
        r matches Some(t) ==> {
            &&& t.on_campus == sum_in(ms@, forms.native, Category::OnCampus)
            &&& t.off_campus == sum_in(ms@, forms.native, Category::OffCampus)
            &&& t.social_practice == sum_in(ms@, forms.native, Category::SocialPractice)
            &&& t.total == sum_all(ms@, forms.native)
        },
{
    let ghost id = forms.native;
    let mut on: u128 = 0;
    let mut off: u128 = 0;
    let mut social: u128 = 0;
    let mut other: u128 = 0;
    let mut total: u128 = 0;
    let mut found = false;
    let mut i: usize = 0;
    while i < ms.len()
        invariant
            forms.wf(),
            id == forms.native,
            i <= ms@.len(),
            on == sum_in(ms@.take(i as int), id, Category::OnCampus),
            off == sum_in(ms@.take(i as int), id, Category::OffCampus),
            social == sum_in(ms@.take(i as int), id, Category::SocialPractice),
            other == sum_in(ms@.take(i as int), id, Category::Other),
            total == sum_all(ms@.take(i as int), id),
            total == on + off + social + other,
            total <= i * 0xFFFF_FFFF_FFFF_FFFF,
            found == exists|j: int| 0 <= j < i && refers_to(ms@[j].member, id),
        decreases ms@.len() - i,
    {
        let m = &ms[i];
        let ghost pre = ms@.take(i as int);
        let ghost next = ms@.take(i + 1);
        assert(next.drop_last() =~= pre);
        assert(next.last() == ms@[i as int]);
        proof {
            lemma_sums_split(pre, id);
            lemma_sums_split(next, id);
        }
        if matches_forms(&m.member, forms) {
            let d = m.duration as u128;
            assert(total + d <= (i + 1) * 0xFFFF_FFFF_FFFF_FFFF) by (nonlinear_arith)
                requires
                    total <= i * 0xFFFF_FFFF_FFFF_FFFF,
                    d <= 0xFFFF_FFFF_FFFF_FFFF,
            ;
            assert((i + 1) * 0xFFFF_FFFF_FFFF_FFFF <= 0xFFFF_FFFF_FFFF_FFFF * 0xFFFF_FFFF_FFFF_FFFF)
                by (nonlinear_arith)
                requires
                    i < 0xFFFF_FFFF_FFFF_FFFF,
            ;
            match category_of(&m.mode) {
                Category::OnCampus => { on = on + d; },
                Category::OffCampus => { off = off + d; },
                Category::SocialPractice => { social = social + d; },
                Category::Other => { other = other + d; },
            }
            total = total + d;
            found = true;
        } else {
            assert(total <= (i + 1) * 0xFFFF_FFFF_FFFF_FFFF) by (nonlinear_arith)
                requires
                    total <= i * 0xFFFF_FFFF_FFFF_FFFF,
            ;
        }
        i = i + 1;
    }
    assert(ms@.take(i as int) =~= ms@);
    if found {
        Some(Time { on_campus: on, off_campus: off, social_practice: social, total })
    } else {
        None
    }
}

/// The memberships of `id` in unknown categories sum to zero exactly when
/// each of them has a zero duration.
pub proof fn lemma_other_sum_zero(ms: Seq<Membership>, id: PersonId)
    ensures
        0 <= sum_in(ms, id, Category::Other),
        (sum_in(ms, id, Category::Other) == 0) <==> (forall|i: int|
            0 <= i < ms.len() && #[trigger] counts_in(ms[i], id, Category::Other)
                ==> ms[i].duration == 0),
    decreases ms.len(),
{
    if ms.len() > 0 {
        let pre = ms.drop_last();
        let k = ms.len() - 1;
        lemma_other_sum_zero(pre, id);
        if forall|i: int|
            0 <= i < ms.len() && #[trigger] counts_in(ms[i], id, Category::Other)
                ==> ms[i].duration == 0 {
            assert forall|i: int|
                0 <= i < pre.len() && #[trigger] counts_in(pre[i], id, Category::Other)
                    implies pre[i].duration == 0 by {
                assert(pre[i] == ms[i]);
            }
            assert(counts_in(ms[k], id, Category::Other) ==> ms[k].duration == 0);
        } else {
            let j = choose|j: int|
                0 <= j < ms.len() && #[trigger] counts_in(ms[j], id, Category::Other)
                    && ms[j].duration != 0;
            if j < k {
                assert(pre[j] == ms[j]);
                assert(counts_in(pre[j], id, Category::Other));
            }
        }
    }
}

/// For a person with at least one matching membership, the on-campus,
/// off-campus and social-practice totals add up to at most the grand total;
/// they add up to it exactly when every matching membership of an unknown
/// category has a zero duration.
pub proof fn named_totals_within_total(ms: Seq<Membership>, id: PersonId)
    requires
        has_match(ms, id),
    ensures
        named_sum(ms, id) <= sum_all(ms, id),
        (named_sum(ms, id) == sum_all(ms, id)) <==> (forall|i: int|
            0 <= i < ms.len() && #[trigger] counts_in(ms[i], id, Category::Other)
                ==> ms[i].duration == 0),
{
    lemma_sums_split(ms, id);
    lemma_other_sum_zero(ms, id);
}

/// For a person with at least one matching membership, the on-campus,
/// off-campus and social-practice totals add up to the grand total exactly
/// when no matching membership has an unknown category. Left out: the
/// membership sets whose matching memberships of unknown categories all
/// have a zero duration, at least one of them being there.
pub proof fn named_totals_equal_total_iff_all_named(ms: Seq<Membership>, id: PersonId)
    requires
        has_match(ms, id),
        (exists|i: int| 0 <= i < ms.len() && #[trigger] counts_in(ms[i], id, Category::Other))
            ==> (exists|i: int|
            0 <= i < ms.len() && #[trigger] counts_in(ms[i], id, Category::Other)
                && ms[i].duration > 0),
    ensures
        named_sum(ms, id) <= sum_all(ms, id),
        (named_sum(ms, id) == sum_all(ms, id)) <==> !(exists|i: int|
            0 <= i < ms.len() && #[trigger] counts_in(ms[i], id, Category::Other)),
{
    named_totals_within_total(ms, id);
}

/// Two membership lists that agree, position by position, on the canonical
/// string form of the reference, on the mode and on the duration give the
/// same aggregation for every person: referring to a person by the native
/// form or by the string form makes no difference.
pub proof fn representation_invariance(ms1: Seq<Membership>, ms2: Seq<Membership>, id: PersonId)
    requires
        ms1.len() == ms2.len(),
        forall|i: int|
            0 <= i < ms1.len() ==> canonical(#[trigger] ms1[i].member) == canonical(ms2[i].member)
                && ms1[i].mode@ == ms2[i].mode@ && ms1[i].duration == ms2[i].duration,
    ensures
        aggregate_spec(ms1, id) == aggregate_spec(ms2, id),
{
    lemma_same_sums(ms1, ms2, id);
    assert(has_match(ms1, id) == has_match(ms2, id)) by {
        if has_match(ms1, id) {
            let j = choose|j: int| 0 <= j < ms1.len() && refers_to(ms1[j].member, id);
            lemma_refers_to_canonical(ms1[j].member, id);
            lemma_refers_to_canonical(ms2[j].member, id);
        }
        if has_match(ms2, id) {
            let j = choose|j: int| 0 <= j < ms2.len() && refers_to(ms2[j].member, id);
            lemma_refers_to_canonical(ms1[j].member, id);
            lemma_refers_to_canonical(ms2[j].member, id);
        }
    }
}

/// The sums of two membership lists that agree position by position on
/// canonical reference, mode and duration are the same.
proof fn lemma_same_sums(ms1: Seq<Membership>, ms2: Seq<Membership>, id: PersonId)
    requires
        ms1.len() == ms2.len(),
        forall|i: int|
            0 <= i < ms1.len() ==> canonical(#[trigger] ms1[i].member) == canonical(ms2[i].member)
                && ms1[i].mode@ == ms2[i].mode@ && ms1[i].duration == ms2[i].duration,
    ensures
        sum_all(ms1, id) == sum_all(ms2, id),
        forall|c: Category| sum_in(ms1, id, c) == sum_in(ms2, id, c),
    decreases ms1.len(),
{
    if ms1.len() > 0 {
        let (p1, p2) = (ms1.drop_last(), ms2.drop_last());
        assert forall|i: int| 0 <= i < p1.len() implies canonical(#[trigger] p1[i].member)
            == canonical(p2[i].member) && p1[i].mode@ == p2[i].mode@ && p1[i].duration
            == p2[i].duration by {
            assert(p1[i] == ms1[i] && p2[i] == ms2[i]);
        }
        lemma_same_sums(p1, p2, id);
        let k = ms1.len() - 1;
        assert(canonical(ms1[k].member) == canonical(ms2[k].member));
        lemma_refers_to_canonical(ms1[k].member, id);
        lemma_refers_to_canonical(ms2[k].member, id);
        assert forall|c: Category| sum_in(ms1, id, c) == sum_in(ms2, id, c) by {
            assert(counts_in(ms1[k], id, c) == counts_in(ms2[k], id, c));
            assert(sum_in(p1, id, c) == sum_in(p2, id, c));
        }
    }
}

} // verus!
