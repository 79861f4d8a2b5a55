//! Decoding length-prefixed bytes into text.

use vstd::prelude::*;

verus! {

/// Relies on core::str::from_utf8: it accepts exactly the valid UTF-8 byte
/// sequences, and the characters of the accepted string are the decoded
/// Unicode scalar values of those bytes.
#[verifier::external_body]
pub(crate) fn bytes_to_string(v: &[u8]) -> (r: Option<String>)
    ensures
        r is Some <==> vstd::utf8::valid_utf8(v@),
        r matches Some(s) ==> s@ == vstd::utf8::decode_utf8(v@),
{
    match core::str::from_utf8(v) {
        Ok(s) => Some(s.to_string()),
        Err(_) => None,
    }
}

} // verus!
