use aegis::text::{
    before_first, concat_str, i64_to_decimal, parse_u8, starts_with, str_eq, trim, u64_to_decimal,
};

#[test]
fn trim_removes_unicode_whitespace_at_both_ends() {
    assert_eq!(trim("  a b  "), "a b");
    assert_eq!(trim("\t\n\r x \u{85}\u{a0}\u{2028}"), "x");
    assert_eq!(trim("   "), "");
    assert_eq!(trim(""), "");
    assert_eq!(trim("x"), "x");
    for s in ["  hello\u{3000}", "\u{205f}a\u{1680}b\u{2009}"] {
        assert_eq!(trim(s), s.trim());
    }
}

#[test]
fn decimals_match_to_string() {
    for n in [0u64, 7, 10, 99, 100, 65535, u64::MAX] {
        assert_eq!(u64_to_decimal(n), n.to_string());
    }
    for n in [0i64, -1, 42, -2147483648, i64::MIN, i64::MAX] {
        assert_eq!(i64_to_decimal(n), n.to_string());
    }
}

#[test]
fn parse_u8_follows_from_str() {
    for s in ["0", "8", "+32", "007", "255", "256", "", "+", "-", "-0", "1a", "++1", " 1", "99999999999999999999"] {
        assert_eq!(parse_u8(s), s.parse::<u8>().ok(), "input {s:?}");
    }
}

#[test]
fn small_text_helpers() {
    assert_eq!(concat_str("ab", "cd"), "abcd");
    assert!(str_eq("FRESH", "FRESH"));
    assert!(!str_eq("FRESH", "FRES"));
    assert!(starts_with("/v1/records", "/v1/"));
    assert!(!starts_with("/v1", "/v1/"));
    assert_eq!(before_first("a, b, c", ','), "a");
    assert_eq!(before_first("abc", ','), "abc");
    assert_eq!(before_first(",x", ','), "");
}
