use zed_java::text::{
    contains, decimal_text, ends_with, find_text, parse_u16_text, replace_char_text,
    split_text, starts_with, text_eq, trim_text,
};

#[test]
fn find_counts_characters() {
    assert_eq!(find_text("abcabc", "ca"), Some(2));
    assert_eq!(find_text("abc", "x"), None);
    assert_eq!(find_text("abc", ""), Some(0));
    assert_eq!(find_text("ab", "abc"), None);
    // character, not byte, positions
    assert_eq!(find_text("黑a", "a"), Some(1));
}

#[test]
fn prefix_suffix_contains() {
    assert!(starts_with("package x;", "package "));
    assert!(!starts_with("pack", "package "));
    assert!(ends_with("x;", ";"));
    assert!(!ends_with("x", ";"));
    assert!(contains("/a/b/c", "/b/"));
    assert!(!contains("/a/bc", "/b/"));
    assert!(text_eq("a", "a"));
    assert!(!text_eq("a", "ab"));
}

#[test]
fn trim_matches_std() {
    for s in ["  a b \t\r\n", "", "   ", "x", "\u{3000}y\u{85}", "\u{200b}z"] {
        assert_eq!(trim_text(s), s.trim());
    }
}

#[test]
fn split_matches_std() {
    for s in ["a.b.c", "", ".", "a..b.", "abc"] {
        let mine = split_text(s, '.');
        let theirs: Vec<String> = s.split('.').map(String::from).collect();
        assert_eq!(mine, theirs);
    }
}

#[test]
fn replace_char_example() {
    assert_eq!(replace_char_text("com.example.app", '.', '/'), "com/example/app");
}

#[test]
fn decimal_and_parse() {
    assert_eq!(decimal_text(0), "0");
    assert_eq!(decimal_text(5006), "5006");
    assert_eq!(decimal_text(u64::MAX), u64::MAX.to_string());
    assert_eq!(parse_u16_text("5006"), Some(5006));
    assert_eq!(parse_u16_text("+7"), Some(7));
    assert_eq!(parse_u16_text("0065535"), Some(65535));
    assert_eq!(parse_u16_text("65536"), None);
    assert_eq!(parse_u16_text("-1"), None);
    assert_eq!(parse_u16_text("+"), None);
    assert_eq!(parse_u16_text(""), None);
    assert_eq!(parse_u16_text(" 1"), None);
    for s in ["5006", "+7", "65536", "-1", "+", "", "12a", "0", "99999999999"] {
        assert_eq!(parse_u16_text(s), s.parse::<u16>().ok());
    }
}

#[test]
fn port_text_round_trip() {
    for p in [0u16, 1, 5005, 5006, 65535] {
        assert_eq!(parse_u16_text(&decimal_text(p as u64)), Some(p));
    }
}
