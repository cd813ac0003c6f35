//! A person's native identity (the twelve bytes of an object id) and its
//! canonical lowercase hex rendering, the two forms by which activity
//! memberships may refer to that person.

use bson::oid::ObjectId;
use vstd::prelude::*;

verus! {

/// The native identity of a person: the twelve bytes of its object id.
#[derive(Clone, Copy, Debug)]
pub struct PersonId {
    pub bytes: [u8; 12],
}

/// The hex digit of a nibble.
pub open spec fn hex_digit(v: int) -> char {
    if v == 0 { '0' } else if v == 1 { '1' } else if v == 2 { '2' } else if v == 3 { '3' }
    else if v == 4 { '4' } else if v == 5 { '5' } else if v == 6 { '6' } else if v == 7 { '7' }
    else if v == 8 { '8' } else if v == 9 { '9' } else if v == 10 { 'a' } else if v == 11 { 'b' }
    else if v == 12 { 'c' } else if v == 13 { 'd' } else if v == 14 { 'e' } else { 'f' }
}

/// Two lowercase hex digits for each byte, the high nibble first.
pub open spec fn hex_of(b: Seq<u8>) -> Seq<char> {
    Seq::new(
        2 * b.len(),
        |i: int|
            if i % 2 == 0 {
                hex_digit(b[i / 2] as int / 16)
            } else {
                hex_digit(b[i / 2] as int % 16)
            },
    )
}

/// Relies on bson's `ObjectId::from_bytes` and `ObjectId::to_hex`: the id
/// holds the bytes as given, and `to_hex` is `hex::encode` of them, two
/// lowercase digits per byte, high nibble first.
#[verifier::external_body]
fn object_id_hex(bytes: [u8; 12]) -> (r: String)
    ensures
        r@ == hex_of(bytes@),
{
    ObjectId::from_bytes(bytes).to_hex()
}

/// Both forms of one person's identity.
pub struct IdentityForms {
    pub native: PersonId,
    pub hex: String,
}

impl IdentityForms {
    /// The string form is the rendering of the native form.
    pub open spec fn wf(&self) -> bool {
        self.hex@ == hex_of(self.native.bytes@)
    }
}

/// How a membership record refers to a person.
pub enum MemberRef {
    Native(PersonId),
    Hex(String),
}

/// The reference designates the person with identity `id`.
pub open spec fn refers_to(r: MemberRef, id: PersonId) -> bool {
    match r {
        MemberRef::Native(x) => x.bytes@ == id.bytes@,
        MemberRef::Hex(s) => s@ == hex_of(id.bytes@),
    }
}

/// The canonical string form of a reference.
pub open spec fn canonical(r: MemberRef) -> Seq<char> {
    match r {
        MemberRef::Native(x) => hex_of(x.bytes@),
        MemberRef::Hex(s) => s@,
    }
}

/// Produces the native and the canonical string form of an identity.
pub fn normalize(id: &PersonId) -> (r: IdentityForms)
    ensures
        r.native.bytes@ == id.bytes@,
        r.hex@ == hex_of(id.bytes@),
        r.wf(),
{
    IdentityForms { native: *id, hex: object_id_hex(id.bytes) }
}

/// Whether two identities hold the same bytes.
pub fn same_id(a: &PersonId, b: &PersonId) -> (r: bool)
    ensures
        r == (a.bytes@ == b.bytes@),
{
    let mut i: usize = 0;
    while i < 12
        invariant
            i <= 12,
            forall|j: int| 0 <= j < i ==> a.bytes@[j] == b.bytes@[j],
        decreases 12 - i,
    {
        if a.bytes[i] != b.bytes[i] {
            return false;
        }
        i = i + 1;
    }
    assert(a.bytes@ =~= b.bytes@);
    true
}

/// Whether a membership reference designates the person of `forms`, under
/// either of its two forms.
pub fn matches_forms(r: &MemberRef, forms: &IdentityForms) -> (b: bool)
    requires
        forms.wf(),
    ensures
        b == refers_to(*r, forms.native),
{
    match r {
        MemberRef::Native(x) => same_id(x, &forms.native),
        MemberRef::Hex(s) => *s == forms.hex,
    }
}

/// Distinct nibbles have distinct hex digits.
pub proof fn lemma_hex_digit_injective(a: int, b: int)
    requires
        0 <= a < 16,
        0 <= b < 16,
        hex_digit(a) == hex_digit(b),
    ensures
        a == b,
{
}

/// The hex rendering determines the bytes it was made from.
pub proof fn lemma_hex_injective(a: Seq<u8>, b: Seq<u8>)
    requires
        hex_of(a) == hex_of(b),
    ensures
        a == b,
{
    assert(hex_of(a).len() == hex_of(b).len());
    assert(hex_of(a).len() == 2 * a.len());
    assert(hex_of(b).len() == 2 * b.len());
    assert(a.len() == b.len());
    assert forall|j: int| 0 <= j < a.len() implies a[j] == b[j] by {
        let hi = 2 * j;
        let lo = 2 * j + 1;
        assert(hi % 2 == 0 && hi / 2 == j);
        assert(lo % 2 == 1 && lo / 2 == j);
        assert(0 <= hi < 2 * a.len() && 0 <= lo < 2 * a.len());
        assert(hex_of(a)[hi] == hex_digit(a[j] as int / 16));
        assert(hex_of(b)[hi] == hex_digit(b[j] as int / 16));
        assert(hex_of(a)[lo] == hex_digit(a[j] as int % 16));
        assert(hex_of(b)[lo] == hex_digit(b[j] as int % 16));
        lemma_hex_digit_injective(a[j] as int / 16, b[j] as int / 16);
        lemma_hex_digit_injective(a[j] as int % 16, b[j] as int % 16);
    }
    assert(a =~= b);
}

/// A reference designates a person exactly when its canonical string form
/// is the person's canonical string form.
pub proof fn lemma_refers_to_canonical(r: MemberRef, id: PersonId)
    ensures
        refers_to(r, id) == (canonical(r) == hex_of(id.bytes@)),
{
    if let MemberRef::Native(x) = r {
        if hex_of(x.bytes@) == hex_of(id.bytes@) {
            lemma_hex_injective(x.bytes@, id.bytes@);
        }
    }
}

} // verus!
