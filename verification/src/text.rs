//! Validated text: the single place where raw stored bytes become owned
//! strings. Validation happens once, in the constructor; no unchecked
//! reinterpretation exists anywhere in the crate.

use vstd::prelude::*;

verus! {

use vstd::utf8::{decode_utf8, valid_utf8};

/// Relies on `String::from_utf8`: succeeds exactly when the bytes are valid
/// UTF-8, and then returns the string whose bytes they are.
#[verifier::external_body]
pub fn utf8_to_string(v: Vec<u8>) -> (r: Option<String>)
    ensures
        r is Some <==> valid_utf8(v@),
        r matches Some(s) ==> s@ == decode_utf8(v@),
{
    String::from_utf8(v).ok()
}

} // verus!
