//! Reading and changing text through references, without taking ownership.

use vstd::prelude::*;
use vstd::string::*;
use vstd::utf8::encode_utf8;

verus! {

/// Returns the length in bytes of a text that stays with its owner.
pub fn calculate_length(s: &String) -> (length: usize)
    ensures
        length == encode_utf8(s@).len(),
{
    s.as_str().as_bytes().len()
}

/// Appends `", world"` to a text through a mutable reference.
pub fn change(some_string: &mut String)
    ensures
        final(some_string)@ == old(some_string)@ + ", world"@,
{
    some_string.append(", world");
}

/// Builds a greeting and moves it out to the caller. Handing the text out by
/// value is what keeps it alive: a reference to it could not outlive the call.
pub fn dangle() -> (s: String)
    ensures
        s@ == "hello"@,
{
    let s = "hello".to_owned();
    s
}

} // verus!
