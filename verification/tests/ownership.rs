use textkit::borrowing;
use textkit::ownership;

#[test]
fn gives_ownership_hands_out_yours() {
    let s1 = ownership::gives_ownership();
    assert_eq!(s1, "yours");
}

#[test]
fn takes_and_gives_back_returns_the_same_text() {
    let s2 = String::from("hello");
    let s3 = ownership::takes_and_gives_back(s2);
    assert_eq!(s3, "hello");
}

#[test]
fn takes_and_gives_back_keeps_the_buffer() {
    let s2 = String::from("hello");
    let before = s2.as_ptr();
    let s3 = ownership::takes_and_gives_back(s2);
    assert_eq!(s3.as_ptr(), before);
}

#[test]
fn calculate_length_returns_text_and_length() {
    let s1 = String::from("hello");
    let (s2, len) = ownership::calculate_length(s1);
    assert_eq!(s2, "hello");
    assert_eq!(len, 5);
}

#[test]
fn calculate_length_of_empty_text() {
    let (s, len) = ownership::calculate_length(String::new());
    assert_eq!(s, "");
    assert_eq!(len, 0);
}

#[test]
fn calculate_length_counts_bytes() {
    let (s, len) = ownership::calculate_length(String::from("héllo"));
    assert_eq!(s, "héllo");
    assert_eq!(len, 6);
    assert_eq!(borrowing::calculate_length(&String::from("日本語")), 9);
}

#[test]
fn calculate_length_by_reference_leaves_the_text() {
    let s1 = String::from("hello");
    let len = borrowing::calculate_length(&s1);
    assert_eq!(len, 5);
    assert_eq!(s1, "hello");
}

#[test]
fn change_appends_world() {
    let mut s = String::from("hello");
    borrowing::change(&mut s);
    assert_eq!(s, "hello, world");
}

#[test]
fn change_twice_appends_twice() {
    let mut s = String::new();
    borrowing::change(&mut s);
    assert_eq!(s, ", world");
    borrowing::change(&mut s);
    assert_eq!(s, ", world, world");
}

#[test]
fn dangle_hands_out_an_owned_hello() {
    let s = borrowing::dangle();
    assert_eq!(s, "hello");
}
