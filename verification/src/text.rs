//! From bytes to text.

use vstd::prelude::*;
use vstd::utf8::{decode_utf8, valid_utf8};

verus! {

/// `String::from_utf8` of std: the string that holds exactly the given
/// bytes, if they are valid UTF-8, and nothing if they are not. The string's
/// characters are then the decoding of the bytes.
#[verifier::external_body]
fn from_utf8(bytes: Vec<u8>) -> (res: Option<String>)
    ensures
        res.is_some() == valid_utf8(bytes@),
        res matches Some(s) ==> s@ == decode_utf8(bytes@),
{
    String::from_utf8(bytes).ok()
}

/// The text that the bytes encode, if they are valid UTF-8.
pub fn text_of(bytes: Vec<u8>) -> (res: Option<String>)
    ensures
        res.is_some() == valid_utf8(bytes@),
        res matches Some(s) ==> s@ == decode_utf8(bytes@),
{
    from_utf8(bytes)
}

/// The text that valid UTF-8 bytes encode.
pub fn into_text(bytes: Vec<u8>) -> (res: String)
    requires
        valid_utf8(bytes@),
    ensures
        res@ == decode_utf8(bytes@),
{
    match from_utf8(bytes) {
        Some(s) => s,
        None => String::new(),
    }
}

} // verus!
