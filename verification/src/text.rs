//! Decoding of the text responses (Info, Dmesg) from raw bytes.
use vstd::prelude::*;

use crate::Error;

verus! {

/// The characters that a byte sequence decodes to as UTF-8, or nothing when
/// it is not valid UTF-8.
pub uninterp spec fn utf8_chars(bytes: Seq<u8>) -> Option<Seq<char>>;

/// Relies on str::from_utf8: whether bytes are valid UTF-8, and what text
/// they spell, depend on the bytes alone; the empty sequence is valid.
#[verifier::external_body]
pub fn decode_utf8(bytes: &Vec<u8>) -> (r: Result<String, Error>)
    ensures
        r is Ok <==> utf8_chars(bytes@) is Some,
        r is Ok ==> r->Ok_0@ == utf8_chars(bytes@)->Some_0,
        r is Err ==> r->Err_0 == Error::Parse,
        bytes@.len() == 0 ==> r is Ok,
{
    match core::str::from_utf8(bytes.as_slice()) {
        Ok(s) => Ok(s.to_string()),
        Err(_) => Err(Error::Parse),
    }
}

} // verus!
