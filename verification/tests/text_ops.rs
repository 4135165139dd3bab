use aio_core::text::{
    chars_of, contains, decimal_text, ends_with, find_char, is_whitespace, remove_all,
    stands_at, starts_with, trim, trim_end_matches,
};

#[test]
fn prefix_suffix_and_occurrence() {
    assert!(starts_with("data: x", "data: "));
    assert!(starts_with("abc", ""));
    assert!(starts_with("", ""));
    assert!(!starts_with("dat", "data"));
    assert!(!starts_with("xdata", "data"));
    assert!(ends_with("a/chat/completions", "/chat/completions"));
    assert!(ends_with("abc", ""));
    assert!(!ends_with("completions", "/chat/completions"));
    assert!(!ends_with("abc", "ab"));
    assert!(contains("llama offloaded 33 layers", "offloaded"));
    assert!(contains("abc", ""));
    assert!(contains("", ""));
    assert!(!contains("", "a"));
    assert!(!contains("offload", "offloaded"));
    assert!(contains("日本語のテキスト", "語の"));
    let s = chars_of("abcabc");
    let p = chars_of("bc");
    assert!(stands_at(&s, 1, &p));
    assert!(stands_at(&s, 4, &p));
    assert!(!stands_at(&s, 5, &p));
    assert!(!stands_at(&s, 7, &p));
    assert!(stands_at(&s, 6, &chars_of("")));
}

#[test]
fn trailing_run_is_cut() {
    assert_eq!(trim_end_matches("http://x///", '/'), "http://x");
    assert_eq!(trim_end_matches("http://x", '/'), "http://x");
    assert_eq!(trim_end_matches("///", '/'), "");
    assert_eq!(trim_end_matches("", '/'), "");
    assert_eq!(trim_end_matches("/a/", '/'), "/a");
}

#[test]
fn every_occurrence_is_removed_from_left_to_right() {
    assert_eq!(remove_all("a/chat/completions", "/chat/completions"), "a");
    assert_eq!(remove_all("x/chat/completions/y/chat/completions", "/chat/completions"), "x/y");
    assert_eq!(remove_all("aaa", "aa"), "a");
    assert_eq!(remove_all("ababa", "aba"), "ba");
    assert_eq!(remove_all("abc", ""), "abc");
    assert_eq!(remove_all("", "x"), "");
    assert_eq!(remove_all("héllo", "l"), "héo");
    for (s, p) in [("aXbXc", "X"), ("XX", "X"), ("abab", "ab"), ("abcabcab", "bca")] {
        assert_eq!(remove_all(s, p), s.replace(p, ""));
    }
}

#[test]
fn white_space_is_trimmed_on_both_sides() {
    assert_eq!(trim("  data: x \r"), "data: x");
    assert_eq!(trim("\t\n x y \u{3000}\u{a0}"), "x y");
    assert_eq!(trim("   "), "");
    assert_eq!(trim(""), "");
    assert_eq!(trim("x"), "x");
    for c in ['\t', '\n', '\u{b}', '\u{c}', '\r', ' ', '\u{85}', '\u{a0}', '\u{1680}', '\u{2000}', '\u{200a}', '\u{2028}', '\u{2029}', '\u{202f}', '\u{205f}', '\u{3000}'] {
        assert!(is_whitespace(c));
    }
    for c in ['a', '\0', '\u{8}', '\u{e}', '\u{200b}', '\u{feff}', '\u{1f}', '_'] {
        assert!(!is_whitespace(c));
    }
    let mut n = 0u32;
    while n < 0x3100 {
        if let Some(c) = char::from_u32(n) {
            assert_eq!(is_whitespace(c), c.is_whitespace());
        }
        n += 1;
    }
}

#[test]
fn first_index_from_a_start() {
    let s = chars_of("a,b,c");
    assert_eq!(find_char(&s, 0, ','), 1);
    assert_eq!(find_char(&s, 1, ','), 1);
    assert_eq!(find_char(&s, 2, ','), 3);
    assert_eq!(find_char(&s, 4, ','), 5);
    assert_eq!(find_char(&s, 5, ','), 5);
}

#[test]
fn numbers_in_decimal() {
    assert_eq!(decimal_text(0), "0");
    assert_eq!(decimal_text(7), "7");
    assert_eq!(decimal_text(10), "10");
    assert_eq!(decimal_text(8080), "8080");
    assert_eq!(decimal_text(65535), "65535");
    assert_eq!(decimal_text(1234567890), "1234567890");
    assert_eq!(decimal_text(u32::MAX), "4294967295");
}
