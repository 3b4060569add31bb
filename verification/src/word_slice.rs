//! The first word of a text, handed out as a borrowed view of that text.
//!
//! The view borrows from the text, so the text cannot be changed or dropped
//! while the view is still in use.

use vstd::prelude::*;
use vstd::string::*;
use vstd::utf8::*;
use crate::boundary::{boundary_is_unique, boundary_of, find_boundary, is_boundary};
use crate::space::{first_word_bytes_are_first_word_chars, SPACE};

verus! {

/// Returns the first word of `s`: the part of `s` before its first space, or
/// all of `s` when it holds no space. The word is a view into `s` and borrows
/// it: `s` cannot be changed for as long as the word is in use.
pub fn first_word<'a>(s: &'a str) -> (word: &'a str)
    ensures
        word@ == s@.subrange(0, boundary_of(s@, ' ') as int),
        is_boundary(s@, ' ', word@.len() as int),
        word.spec_bytes() == s.spec_bytes().subrange(
            0,
            boundary_of(s.spec_bytes(), SPACE) as int,
        ),
{
    let end = find_boundary(s.as_bytes(), SPACE);
    proof {
        let bytes = s.spec_bytes();
        encode_utf8_valid_utf8(s@);
        if end < bytes.len() {
            is_char_boundary_iff_not_is_continuation_byte(bytes, end as int);
        } else {
            is_char_boundary_start_end_of_seq(bytes);
        }
    }
    let (word, _) = s.split_at(end);
    proof {
        boundary_is_unique(s@, ' ', boundary_of(s@, ' ') as int);
        let chars = s@.subrange(0, boundary_of(s@, ' ') as int);
        first_word_bytes_are_first_word_chars(s@);
        assert(encode_utf8(word@) == encode_utf8(chars));
        encode_utf8_decode_utf8(word@);
        encode_utf8_decode_utf8(chars);
    }
    word
}

} // verus!
