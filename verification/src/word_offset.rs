//! The first word of a text, located by a plain offset.
//!
//! The offset is a bare number: nothing ties it to the text it was computed
//! from, so it stays meaningful only while that text is left untouched.

use vstd::prelude::*;
use vstd::string::*;
use vstd::utf8::{encode_utf8, is_ascii_chars, is_ascii_chars_encode_utf8};
use crate::boundary::{boundary_is_unique, boundary_of, find_boundary, is_boundary};
use crate::space::{first_word_bytes_are_first_word_chars, SPACE};

verus! {

/// Returns the byte offset at which the first word of `s` ends: the position
/// of the first space, or the length of `s` when it holds no space. That is
/// also the length in bytes of the characters before the first space, and in
/// ASCII text their number.
pub fn first_word(s: &str) -> (end: usize)
    ensures
        is_boundary(s.spec_bytes(), SPACE, end as int),
        end == boundary_of(s.spec_bytes(), SPACE),
        end == encode_utf8(s@.subrange(0, boundary_of(s@, ' ') as int)).len(),
        is_ascii_chars(s@) ==> end == boundary_of(s@, ' '),
{
    proof {
        let word = s@.subrange(0, boundary_of(s@, ' ') as int);
        first_word_bytes_are_first_word_chars(s@);
        boundary_is_unique(s@, ' ', boundary_of(s@, ' ') as int);
        if is_ascii_chars(s@) {
            assert(is_ascii_chars(word));
            is_ascii_chars_encode_utf8(word);
        }
    }
    find_boundary(s.as_bytes(), SPACE)
}

} // verus!
