//! String helpers: decimal formatting, parsing, trimming, affix tests.

use bardata::strutil::{
    u64_to_string, i64_to_string, str_eq, starts_with, ends_with, trim, parse_u32, parse_u64,
};

#[test]
fn u64_formatting() {
    assert_eq!(u64_to_string(0), "0");
    assert_eq!(u64_to_string(7), "7");
    assert_eq!(u64_to_string(42), "42");
    assert_eq!(u64_to_string(18446744073709551615), "18446744073709551615");
}

#[test]
fn i64_formatting_handles_signs() {
    assert_eq!(i64_to_string(2023), "2023");
    assert_eq!(i64_to_string(0), "0");
    assert_eq!(i64_to_string(-44), "-44");
    assert_eq!(i64_to_string(i64::MIN), "-9223372036854775808");
}

#[test]
fn str_eq_compares_contents() {
    assert!(str_eq("", ""));
    assert!(str_eq("abc", "abc"));
    assert!(!str_eq("abc", "abd"));
    assert!(!str_eq("abc", "ab"));
    assert!(str_eq("na\u{f001}ve", "na\u{f001}ve"));
}

#[test]
fn affix_tests() {
    assert!(starts_with("zsh - home", "zsh"));
    assert!(!starts_with("a zsh", "zsh"));
    assert!(starts_with("anything", ""));
    assert!(ends_with("Mozilla Firefox", "Firefox"));
    assert!(!ends_with("Firefox is nice", "Firefox"));
    assert!(ends_with("x", ""));
}

#[test]
fn trim_strips_ascii_whitespace() {
    assert_eq!(trim("  42\n"), "42");
    assert_eq!(trim("up\n"), "up");
    assert_eq!(trim("\t\r\n "), "");
    assert_eq!(trim("no-trim"), "no-trim");
    assert_eq!(trim(" in side "), "in side");
}

#[test]
fn parse_u32_accepts_digit_strings() {
    assert_eq!(parse_u32("0"), Some(0));
    assert_eq!(parse_u32("42"), Some(42));
    assert_eq!(parse_u32("007"), Some(7));
    assert_eq!(parse_u32("4294967295"), Some(4294967295));
}

#[test]
fn parse_u32_rejects_non_digits_and_overflow() {
    assert_eq!(parse_u32(""), None);
    assert_eq!(parse_u32("4a"), None);
    assert_eq!(parse_u32("-3"), None);
    assert_eq!(parse_u32(" 3"), None);
    assert_eq!(parse_u32("4294967296"), None);
}

#[test]
fn parse_u64_bounds() {
    assert_eq!(parse_u64("18446744073709551615"), Some(18446744073709551615));
    assert_eq!(parse_u64("18446744073709551616"), None);
    assert_eq!(parse_u64("99999999999999999999999"), None);
}
