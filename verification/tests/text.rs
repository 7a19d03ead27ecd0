use realtypro::text::{blank, decimal, parse_i32, parse_i64, trim, zero_padded};

#[test]
fn trim_removes_unicode_whitespace_at_both_ends() {
    assert_eq!(trim("  hello world \t\n"), "hello world");
    assert_eq!(trim("\u{3000}x\u{a0}"), "x");
    assert_eq!(trim("a b"), "a b");
    assert_eq!(trim("   "), "");
    assert_eq!(trim(""), "");
}

#[test]
fn blank_means_only_whitespace() {
    assert!(blank(""));
    assert!(blank(" \t\r\n"));
    assert!(!blank(" x "));
}

#[test]
fn parse_i64_accepts_signed_decimal() {
    assert_eq!(parse_i64("42"), Some(42));
    assert_eq!(parse_i64("+42"), Some(42));
    assert_eq!(parse_i64("-42"), Some(-42));
    assert_eq!(parse_i64("007"), Some(7));
    assert_eq!(parse_i64("9223372036854775807"), Some(i64::MAX));
    assert_eq!(parse_i64("-9223372036854775808"), Some(i64::MIN));
}

#[test]
fn parse_i64_rejects_what_str_parse_rejects() {
    for s in ["", "+", "-", " 1", "1 ", "1.5", "1e3", "abc", "9223372036854775808", "--1", "+-1", "12a", "99999999999999999999999"] {
        assert_eq!(parse_i64(s), s.parse::<i64>().ok(), "input {:?}", s);
        assert_eq!(parse_i64(s), None, "input {:?}", s);
    }
}

#[test]
fn parse_i32_range() {
    assert_eq!(parse_i32("2147483647"), Some(i32::MAX));
    assert_eq!(parse_i32("2147483648"), None);
    assert_eq!(parse_i32("-2147483648"), Some(i32::MIN));
    assert_eq!(parse_i32("3"), Some(3));
}

#[test]
fn parse_agrees_with_std_on_many_inputs() {
    let samples = ["0", "-0", "+0", "10", "-10", "123456789", "4294967296", "-2147483649", "٣", "1_000"];
    for s in samples {
        assert_eq!(parse_i64(s), s.parse::<i64>().ok(), "i64 {:?}", s);
        assert_eq!(parse_i32(s), s.parse::<i32>().ok(), "i32 {:?}", s);
    }
}

#[test]
fn decimal_matches_to_string() {
    for n in [0i64, 7, -7, 10, 999, 1000, -1000, 1234567, i64::MAX, i64::MIN] {
        assert_eq!(decimal(n), n.to_string());
    }
}

#[test]
fn law_decimal_parses_back_on_samples() {
    for n in [0i64, 5, -5, 42, 1_000_000, i64::MAX, i64::MIN, -1] {
        assert_eq!(parse_i64(&decimal(n)), Some(n));
    }
}

#[test]
fn zero_padded_widths() {
    assert_eq!(zero_padded(5, 2), "05");
    assert_eq!(zero_padded(45, 2), "45");
    assert_eq!(zero_padded(7, 3), "007");
    assert_eq!(zero_padded(1234, 3), "1234");
    assert_eq!(zero_padded(0, 0), "0");
}
