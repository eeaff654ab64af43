use zeroos_core::text::{
    chars_lt, ends_with, join, push_decimal, replace_all, sort_dedup, sorted_unique, starts_with,
    str_eq, trim, trim_start,
};

#[test]
fn replace_all_matches_str_replace() {
    let cases = [
        ("{a}{a}x{a", "{a}", "yy"),
        ("aaa", "aa", "b"),
        ("no match", "{x}", "z"),
        ("", "{x}", "z"),
        ("ééé{p}é", "{p}", "ü"),
        ("abc", "", "x"),
        ("", "", "x"),
        ("", "a", "x"),
    ];
    for (s, p, t) in cases {
        assert_eq!(replace_all(s, p, t), s.replace(p, t));
    }
}

#[test]
fn decimal_numbers() {
    for n in [0usize, 7, 10, 99, 100, 12345, usize::MAX] {
        let mut s = String::from("#");
        push_decimal(&mut s, n);
        assert_eq!(s, format!("#{}", n));
    }
}

#[test]
fn sort_dedup_sorts_and_drops_repeats() {
    let v: Vec<String> = ["b", "a", "b", "", "ab", "Z", "é"].iter().map(|s| s.to_string()).collect();
    let mut expected = v.clone();
    expected.sort();
    expected.dedup();
    assert_eq!(sort_dedup(&v), expected);
    assert_eq!(sorted_unique(&v), expected);
    assert!(sort_dedup(&Vec::new()).is_empty());
}

#[test]
fn lexicographic_order_of_chars() {
    let c = |s: &str| s.chars().collect::<Vec<char>>();
    assert!(chars_lt(&c("a"), &c("b")));
    assert!(chars_lt(&c("a"), &c("ab")));
    assert!(!chars_lt(&c("ab"), &c("ab")));
    assert!(!chars_lt(&c("b"), &c("ab")));
    assert!(chars_lt(&c(""), &c("x")));
    assert!(chars_lt(&c("z"), &c("é")));
}

#[test]
fn join_with_separator() {
    let v: Vec<String> = vec!["x".into(), "y".into(), "z".into()];
    assert_eq!(join(&v, ","), "x,y,z");
    assert_eq!(join(&vec!["only".to_string()], ","), "only");
    assert_eq!(join(&Vec::new(), ","), "");
}

#[test]
fn trimming_white_space() {
    for s in ["  a b  ", "\t\r\nx\u{3000}", "", "   ", "\u{85}y\u{a0}", "plain"] {
        assert_eq!(trim(s), s.trim());
        assert_eq!(trim_start(s), s.trim_start());
    }
}

#[test]
fn prefixes_suffixes_and_equality() {
    assert!(starts_with("#!/bin/sh", "#!"));
    assert!(!starts_with("#", "#!"));
    assert!(ends_with("x.sock", ".sock"));
    assert!(!ends_with("sock", ".sock"));
    assert!(str_eq("abc", "abc"));
    assert!(!str_eq("abc", "abd"));
    assert!(!str_eq("abc", "ab"));
}

#[test]
fn sort_strings_keeps_repeats() {
    let v: Vec<String> = ["b", "a", "b", "", "ab", "é", "Z"].iter().map(|s| s.to_string()).collect();
    let mut expected = v.clone();
    expected.sort();
    assert_eq!(zeroos_core::text::sort_strings(&v), expected);
}

#[test]
fn white_space_is_the_unicode_set() {
    for u in 0u32..0x3100 {
        if let Some(c) = char::from_u32(u) {
            assert_eq!(zeroos_core::text::is_whitespace(c), c.is_whitespace(), "U+{:04X}", u);
        }
    }
}
