//! Passing owned text into and out of functions.

use vstd::prelude::*;
use vstd::string::*;
use vstd::utf8::encode_utf8;

verus! {

/// Creates a fresh text and moves it out to the caller.
pub fn gives_ownership() -> (some_string: String)
    ensures
        some_string@ == "yours"@,
{
    let some_string = "yours".to_owned();
    some_string
}

/// Takes a text and moves the very same text back to the caller.
pub fn takes_and_gives_back(a_string: String) -> (back: String)
    ensures
        back == a_string,
{
    a_string
}

/// Returns the text that was passed in together with its length in bytes,
/// so that the caller owns the text again after the call.
pub fn calculate_length(s: String) -> (pair: (String, usize))
    ensures
        pair.0 == s,
        pair.1 == encode_utf8(s@).len(),
{
    let length = s.as_str().as_bytes().len();
    (s, length)
}

} // verus!
