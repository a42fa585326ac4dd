use easy_occp::num::{fmt_i32_padded, fmt_i64, fmt_u64, parse_i64, parse_u32};
use easy_occp::order::{compare_chars, Cmp};
use easy_occp::text::{
    concat_chars, eq_chars, eq_str, find_chars, is_whitespace, opt_eq_str, sub_chars, trim_chars, trim_str,
    trimmed_nonempty,
};

fn cs(s: &str) -> Vec<char> {
    s.chars().collect()
}

fn st(v: Vec<char>) -> String {
    v.into_iter().collect()
}

#[test]
fn formats_integers() {
    assert_eq!(st(fmt_u64(0)), "0");
    assert_eq!(st(fmt_u64(u64::MAX)), u64::MAX.to_string());
    assert_eq!(st(fmt_i64(-42)), "-42");
    assert_eq!(st(fmt_i64(i64::MIN)), i64::MIN.to_string());
    assert_eq!(st(fmt_i32_padded(7, 4)), "0007");
    assert_eq!(st(fmt_i32_padded(-7, 4)), "-007");
    assert_eq!(st(fmt_i32_padded(123456, 4)), "123456");
    assert_eq!(st(fmt_i32_padded(i32::MIN, 2)), i32::MIN.to_string());
}

#[test]
fn parses_integers_like_from_str() {
    for t in ["0", "-0", "+17", "9223372036854775807", "-9223372036854775808", "", "-", "+", "1a", " 1", "9223372036854775808", "--1"] {
        assert_eq!(parse_i64(&cs(t)), t.parse::<i64>().ok(), "{t:?}");
    }
    for t in ["0", "+4", "4294967295", "4294967296", "-1", "", "07"] {
        assert_eq!(parse_u32(&cs(t)), t.parse::<u32>().ok(), "{t:?}");
    }
}

#[test]
fn integer_text_round_trips() {
    for i in [0i64, 1, -1, 1234567, i64::MAX, i64::MIN] {
        assert_eq!(parse_i64(&fmt_i64(i)), Some(i));
    }
    for u in [0u32, 9, 10, u32::MAX] {
        assert_eq!(parse_u32(&fmt_u64(u as u64)), Some(u));
    }
}

#[test]
fn trims_unicode_whitespace() {
    assert_eq!(trim_str("  a b \t\n"), "a b");
    assert_eq!(trim_str("\u{3000}x\u{A0}"), "x");
    assert_eq!(trim_str("   "), "");
    assert_eq!(st(trim_chars(&cs("\r\nx"))), "x");
    for c in ['\u{85}', '\u{2028}', '\u{200A}', '\u{1680}', '\u{0B}'] {
        assert!(is_whitespace(c) && c.is_whitespace());
    }
    for c in ['a', '\u{200B}', '_', '\u{180E}'] {
        assert_eq!(is_whitespace(c), c.is_whitespace(), "{c:?}");
    }
}

#[test]
fn searches_and_slices() {
    assert_eq!(find_chars(&cs("abcabc"), &cs("ca")), Some(2));
    assert_eq!(find_chars(&cs("abc"), &cs("")), Some(0));
    assert_eq!(find_chars(&cs("abc"), &cs("abcd")), None);
    assert_eq!(find_chars(&cs("abc"), &cs("x")), None);
    assert_eq!(st(sub_chars(&cs("hello"), 1, 3)), "el");
    assert_eq!(st(concat_chars(&cs("ab"), &cs("cd"))), "abcd");
    assert!(eq_str("x", "x") && !eq_str("x", "y"));
    assert!(eq_chars(&cs(""), &cs("")) && !eq_chars(&cs("a"), &cs("ab")));
}

#[test]
fn optional_texts() {
    assert_eq!(trimmed_nonempty(&Some(" v ".to_string())), Some("v".to_string()));
    assert_eq!(trimmed_nonempty(&Some("  ".to_string())), None);
    assert_eq!(trimmed_nonempty(&None), None);
    assert!(opt_eq_str(&Some("1".to_string()), "1"));
    assert!(!opt_eq_str(&None, "1"));
}

#[test]
fn compares_like_str_ordering() {
    assert_eq!(compare_chars(&cs("2024-Q1"), &cs("2024-Q2")), Cmp::Less);
    assert_eq!(compare_chars(&cs("2024"), &cs("2024-Q2")), Cmp::Less);
    assert_eq!(compare_chars(&cs("b"), &cs("abc")), Cmp::Greater);
    assert_eq!(compare_chars(&cs("x"), &cs("x")), Cmp::Equal);
}
