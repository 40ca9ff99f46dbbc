use bookshelf::covers::split_at_char;
use bookshelf::text::{
    collapse_whitespace, concat_strings, contains_str, decimal_string, same_text, starts_with,
    to_lowercase, trim_string,
};

#[test]
fn trim_removes_surrounding_white_space() {
    assert_eq!(trim_string("  \t Автор \n"), "Автор");
    assert_eq!(trim_string("\u{3000}x y\u{a0}"), "x y");
    assert_eq!(trim_string("   "), "");
    assert_eq!(trim_string(""), "");
}

#[test]
fn trim_twice_is_trim_once() {
    let s = "  a  b  ";
    let once = trim_string(s);
    assert_eq!(trim_string(&once), once);
}

#[test]
fn collapse_joins_words_with_single_spaces() {
    assert_eq!(collapse_whitespace("  Твердый\n\n   переплет  "), "Твердый переплет");
    assert_eq!(collapse_whitespace("a\tb\u{2003}c"), "a b c");
    assert_eq!(collapse_whitespace(" \n "), "");
    assert_eq!(collapse_whitespace("one"), "one");
}

#[test]
fn collapse_twice_is_collapse_once() {
    let once = collapse_whitespace(" x   y \n z ");
    assert_eq!(collapse_whitespace(&once), once);
    assert_eq!(trim_string(&once), once);
}

#[test]
fn concat_strings_joins_without_separator() {
    let parts = vec!["ab".to_string(), "".to_string(), " c".to_string()];
    assert_eq!(concat_strings(&parts), "ab c");
    assert_eq!(concat_strings(&Vec::new()), "");
}

#[test]
fn decimal_string_writes_integers() {
    assert_eq!(decimal_string(0), "0");
    assert_eq!(decimal_string(7), "7");
    assert_eq!(decimal_string(30), "30");
    assert_eq!(decimal_string(-45), "-45");
    assert_eq!(decimal_string(i32::MAX), "2147483647");
    assert_eq!(decimal_string(i32::MIN), "-2147483648");
}

#[test]
fn contains_and_prefix() {
    assert!(contains_str("data:image/jpeg;base64", "jpeg"));
    assert!(!contains_str("data:image/png", "jpg"));
    assert!(contains_str("abc", ""));
    assert!(!contains_str("ab", "abc"));
    assert!(starts_with("https://a", "https"));
    assert!(!starts_with("http://a", "https"));
    assert!(starts_with("x", ""));
    assert!(same_text("Автор", "Автор"));
    assert!(!same_text("Автор", "Автор "));
}

#[test]
fn lowercase_maps_letters() {
    assert_eq!(to_lowercase("ВОЙНА и Мир ABC"), "война и мир abc");
}

#[test]
fn split_then_join_gives_text_back() {
    let s = "a,,b,c";
    let parts = split_at_char(s, ',');
    assert_eq!(parts, vec!["a", "", "b", "c"]);
    assert_eq!(parts.join(","), s);
    assert_eq!(parts.len(), s.matches(',').count() + 1);
    assert_eq!(split_at_char("", ','), vec![""]);
}
