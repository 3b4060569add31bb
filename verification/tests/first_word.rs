use textkit::boundary::find_boundary;
use textkit::space::SPACE;
use textkit::word_offset;
use textkit::word_slice;

/// Checks on concrete values that `b` is the boundary of `text` for `sep`.
fn holds_as_boundary(text: &[u8], sep: u8, b: usize) -> bool {
    b <= text.len() && !text[..b].contains(&sep) && (b == text.len() || text[b] == sep)
}

#[test]
fn offset_of_empty_text_is_zero() {
    assert_eq!(word_offset::first_word(""), 0);
}

#[test]
fn offset_without_space_is_full_length() {
    assert_eq!(word_offset::first_word("hello"), 5);
}

#[test]
fn offset_stops_at_first_space() {
    assert_eq!(word_offset::first_word("hello world"), 5);
}

#[test]
fn offset_with_leading_space_is_zero() {
    assert_eq!(word_offset::first_word(" hello"), 0);
}

#[test]
fn offset_stops_at_first_of_several_spaces() {
    assert_eq!(word_offset::first_word("one two three"), 3);
    assert_eq!(word_offset::first_word("a  b"), 1);
    assert_eq!(word_offset::first_word("   "), 0);
}

#[test]
fn offset_ignores_other_white_space() {
    assert_eq!(word_offset::first_word("hello\tworld"), 11);
    assert_eq!(word_offset::first_word("hello\nworld again"), 11);
}

#[test]
fn offset_counts_bytes_not_characters() {
    assert_eq!(word_offset::first_word("héllo wörld"), 6);
    assert_eq!(word_offset::first_word("日本語 テキスト"), 9);
    assert_eq!(word_offset::first_word("🦀"), 4);
}

#[test]
fn offset_survives_the_text_it_came_from() {
    let mut s = String::from("hello world");
    let word = word_offset::first_word(&s);
    s.clear();
    assert_eq!(word, 5);
    assert_eq!(s, "");
}

#[test]
fn slice_of_empty_text_is_empty() {
    assert_eq!(word_slice::first_word(""), "");
}

#[test]
fn slice_without_space_is_whole_text() {
    assert_eq!(word_slice::first_word("hello"), "hello");
}

#[test]
fn slice_stops_at_first_space() {
    assert_eq!(word_slice::first_word("hello world"), "hello");
}

#[test]
fn slice_with_leading_space_is_empty() {
    assert_eq!(word_slice::first_word(" hello"), "");
}

#[test]
fn slice_keeps_multibyte_characters_whole() {
    assert_eq!(word_slice::first_word("héllo wörld"), "héllo");
    assert_eq!(word_slice::first_word("日本語 テキスト"), "日本語");
    assert_eq!(word_slice::first_word("🦀🦀"), "🦀🦀");
}

#[test]
fn slice_borrows_from_the_text() {
    let s = String::from("hello world");
    let word = word_slice::first_word(&s);
    assert_eq!(word.as_ptr(), s.as_ptr());
    assert_eq!(word.len(), 5);
}

#[test]
fn first_word_of_whole_and_partial_slices() {
    let my_string = String::from("hello world");
    assert_eq!(word_slice::first_word(&my_string[0..6]), "hello");
    assert_eq!(word_slice::first_word(&my_string[..]), "hello");
    assert_eq!(word_slice::first_word(&my_string), "hello");
    assert_eq!(word_slice::first_word(&my_string[6..]), "world");
    assert_eq!(word_slice::first_word(&my_string[..3]), "hel");

    let my_string_literal: &str = "hello world";
    assert_eq!(word_slice::first_word(&my_string_literal[0..6]), "hello");
    assert_eq!(word_slice::first_word(&my_string_literal[..]), "hello");
    assert_eq!(word_slice::first_word(my_string_literal), "hello");

    assert_eq!(word_offset::first_word(&my_string[0..6]), 5);
    assert_eq!(word_offset::first_word(&my_string[6..]), 5);
    assert_eq!(word_offset::first_word(&my_string), 5);
}

#[test]
fn offset_is_the_length_of_the_slice() {
    for text in ["", " ", "hello", "hello world", " lead", "trail ", "héllo wörld", "a b c", "🦀 crab"] {
        let word = word_slice::first_word(text);
        assert_eq!(word_offset::first_word(text), word.len());
        assert!(text.starts_with(word));
        assert!(!word.contains(' '));
        assert!(word.len() == text.len() || text[word.len()..].starts_with(' '));
    }
}

#[test]
fn boundary_with_a_chosen_separator() {
    assert_eq!(find_boundary(b"key=value", b'='), 3);
    assert_eq!(find_boundary(b"a,b,c", b','), 1);
    assert_eq!(find_boundary(b"no separator here", b','), 17);
    assert_eq!(find_boundary(b",", b','), 0);
    assert_eq!(find_boundary(b"", b','), 0);
    assert_eq!(find_boundary(&[0u8, 1, 2, 255, 3], 255), 3);
    assert_eq!(find_boundary(b"hello world", SPACE), 5);
}

#[test]
fn boundary_holds_for_every_separator() {
    let texts: [&[u8]; 6] = [b"", b" ", b"hello world", b"a,b c;d", b"\x00\x01\x02", b"zzzz"];
    for text in texts {
        for sep in 0..=255u8 {
            let b = find_boundary(text, sep);
            assert!(holds_as_boundary(text, sep, b));
        }
    }
}
