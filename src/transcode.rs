//! Transcoding of the report's text fields from UTF-8 to GBK.

use encoding_rs::GBK;
use vstd::prelude::*;
use vstd::utf8::is_ascii_chars;

verus! {

/// The GBK bytes of a text, as encoding_rs writes them (characters that GBK
/// cannot hold become decimal numeric character references).
pub uninterp spec fn gbk_bytes(s: Seq<char>) -> Seq<u8>;

/// Short enough that the encoder's worst-case buffer size fits in `usize`.
pub open spec fn gbk_len_ok(s: Seq<char>) -> bool {
    8 * s.len() + 16 <= usize::MAX / 2
}

/// Relies on encoding_rs's `Encoding::encode` with `GBK`: the output is a
/// function of the text alone, and an ASCII text is handed back as its own
/// bytes. It panics only where the worst-case buffer size overflows `usize`.
#[verifier::external_body]
fn gbk_encode(s: &str) -> (r: Vec<u8>)
    requires
        gbk_len_ok(s@),
    ensures
        r@ == gbk_bytes(s@),
        is_ascii_chars(s@) ==> r@ == Seq::new(s@.len(), |i: int| s@[i] as u8),
{
    let (bytes, _, _) = GBK.encode(s);
    bytes.into_owned()
}

/// Transcodes each field of a record to GBK, keeping the fields' order.
pub fn transcode_record(fields: &Vec<String>) -> (r: Vec<Vec<u8>>)
    requires
        forall|i: int| 0 <= i < fields@.len() ==> gbk_len_ok(#[trigger] fields@[i]@),
    ensures
        r@.len() == fields@.len(),
        forall|i: int| 0 <= i < fields@.len() ==> (#[trigger] r@[i])@ == gbk_bytes(fields@[i]@),
{
    let mut out: Vec<Vec<u8>> = Vec::new();
    let mut i: usize = 0;
    while i < fields.len()
        invariant
            i <= fields@.len(),
            forall|k: int| 0 <= k < fields@.len() ==> gbk_len_ok(#[trigger] fields@[k]@),
            out@.len() == i,
            forall|k: int| 0 <= k < i ==> (#[trigger] out@[k])@ == gbk_bytes(fields@[k]@),
        decreases fields@.len() - i,
    {
        let bytes = gbk_encode(fields[i].as_str());
        out.push(bytes);
        i = i + 1;
    }
    out
}

} // verus!
