//! The word separator, as a byte and as a character, and how the two agree
//! when text is stored as UTF-8.

use vstd::prelude::*;
use vstd::utf8::*;
use crate::boundary::{boundary_after_prefix, boundary_is_unique, boundary_of};

verus! {

/// The byte that separates words: an ASCII space.
pub const SPACE: u8 = 0x20;

/// A space is stored as the single byte `SPACE`, and no other character has
/// that byte anywhere in what it is stored as.
proof fn lemma_encode_scalar_space(u: u32)
    requires
        is_scalar(u),
    ensures
        encode_scalar(u).len() >= 1,
        u == 0x20 ==> encode_scalar(u) == seq![SPACE],
        u != 0x20 ==> forall|i: int|
            0 <= i < encode_scalar(u).len() ==> #[trigger] encode_scalar(u)[i] != SPACE,
{
    if has_width_1_encoding(u) {
        assert(((u & 0x7F) as u8 == 0x20u8) <==> u == 0x20) by (bit_vector)
            requires
                u <= 0x7F,
        ;
    } else {
        assert(forall|x: u8| 0xC0u8 | x != 0x20u8) by (bit_vector);
        assert(forall|x: u8| 0xE0u8 | x != 0x20u8) by (bit_vector);
        assert(forall|x: u8| 0xF0u8 | x != 0x20u8) by (bit_vector);
        assert(forall|x: u8| 0x80u8 | x != 0x20u8) by (bit_vector);
    }
}

/// The first word of a text is the same whether it is looked for among the
/// characters or among the bytes that store them: the bytes before the first
/// `SPACE` byte are exactly the bytes of the characters before the first space.
pub proof fn first_word_bytes_are_first_word_chars(text: Seq<char>)
    ensures
        encode_utf8(text).subrange(0, boundary_of(encode_utf8(text), SPACE) as int) == encode_utf8(
            text.subrange(0, boundary_of(text, ' ') as int),
        ),
    decreases text.len(),
{
    let bytes = encode_utf8(text);
    if text.len() == 0 {
        assert(text.subrange(0, 0) =~= text);
        assert(bytes.subrange(0, 0) =~= bytes);
    } else {
        let rest = text.drop_first();
        let head = encode_scalar(text[0] as u32);
        let tail = encode_utf8(rest);
        char_is_scalar(text[0]);
        lemma_encode_scalar_space(text[0] as u32);
        if text[0] == ' ' {
            assert(bytes[0] == SPACE);
            assert(bytes.subrange(0, 0) =~= encode_utf8(text.subrange(0, 0)));
        } else {
            assert(text[0] as u32 != 0x20) by {
                char_u32_cast(text[0], text[0] as u32);
                char_u32_cast(' ', 0x20);
            }
            first_word_bytes_are_first_word_chars(rest);
            boundary_after_prefix(head, tail, SPACE);
            let k = boundary_of(rest, ' ') as int;
            let m = boundary_of(tail, SPACE) as int;
            boundary_is_unique(rest, ' ', k);
            boundary_is_unique(tail, SPACE, m);
            let word = text.subrange(0, k + 1);
            assert(word[0] == text[0]);
            assert(word.drop_first() =~= rest.subrange(0, k));
            assert(encode_utf8(word) == head + encode_utf8(rest.subrange(0, k)));
            assert(bytes.subrange(0, head.len() + m) =~= head + tail.subrange(0, m));
        }
    }
}

} // verus!
