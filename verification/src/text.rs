//! Text payloads. UTF-8 decoding is delegated to the standard library
//! behind one trusted wrapper whose result is named by an uninterpreted
//! function: the decoding of a byte sequence depends on those bytes alone.

use vstd::prelude::*;

verus! {

/// The UTF-8 decoding of `bytes`: the character sequence whose UTF-8
/// encoding is `bytes`, or `None` when `bytes` is not valid UTF-8.
pub uninterp spec fn utf8_decode(bytes: Seq<u8>) -> Option<Seq<char>>;

/// Relies on std's `String::from_utf8`: it returns `Ok` exactly when the
/// bytes are valid UTF-8, and then the string is their decoding, a function
/// of the bytes alone.
#[verifier::external_body]
pub(crate) fn string_from_utf8(bytes: Vec<u8>) -> (r: Option<String>)
    ensures
        r is Some <==> utf8_decode(bytes@) is Some,
        r matches Some(t) ==> utf8_decode(bytes@) == Some(t@),
{
    String::from_utf8(bytes).ok()
}

/// The raw byte that a unit string may end in, standing for a
/// squared/inverse unit suffix in the source encoding.
pub const UNIT_SUFFIX_RAW: u8 = 0xb2;

/// The ASCII digit that the suffix byte is translated to.
pub const UNIT_SUFFIX_ASCII: u8 = 0x32;

/// A unit-string payload with its trailing suffix byte corrected: when the
/// final byte is the raw squared/inverse marker it becomes the ASCII digit
/// `2`; no other byte is substituted.
pub open spec fn spec_unit_text_bytes(raw: Seq<u8>) -> Seq<u8> {
    if raw.len() > 0 && raw[raw.len() - 1] == UNIT_SUFFIX_RAW {
        raw.update(raw.len() - 1, UNIT_SUFFIX_ASCII)
    } else {
        raw
    }
}

/// Applies the unit-string correction to an owned payload.
pub fn unit_text_bytes(raw: Vec<u8>) -> (r: Vec<u8>)
    ensures
        r@ == spec_unit_text_bytes(raw@),
{
    let mut v = raw;
    let n = v.len();
    if n > 0 && v[n - 1] == UNIT_SUFFIX_RAW {
        v.set(n - 1, UNIT_SUFFIX_ASCII);
    }
    v
}

} // verus!
