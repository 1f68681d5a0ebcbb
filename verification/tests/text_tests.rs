use sysmon_companion::text::{decimal_string, find_first, parse_hex, starts_with, str_equal};

#[test]
fn decimal_digits() {
    assert_eq!(decimal_string(0), "0");
    assert_eq!(decimal_string(7), "7");
    assert_eq!(decimal_string(10), "10");
    assert_eq!(decimal_string(4294967295), "4294967295");
}

#[test]
fn hexadecimal_values() {
    assert_eq!(parse_hex("0000D1B6"), Some(0xD1B6));
    assert_eq!(parse_hex("0000d1b6"), Some(0xD1B6));
    assert_eq!(parse_hex("FFFFFFFF"), Some(u32::MAX));
    assert_eq!(parse_hex("7"), Some(7));
    assert_eq!(parse_hex(""), Some(0));
    assert_eq!(parse_hex("12G4"), None);
    assert_eq!(parse_hex("0x12"), None);
}

#[test]
fn string_equality() {
    assert!(str_equal("2s", "2s"));
    assert!(!str_equal("2s", "2S"));
    assert!(!str_equal("2s", "2s "));
    assert!(str_equal("", ""));
}

#[test]
fn first_occurrence() {
    assert_eq!(find_first("pid_1_luid_0x0_luid_", "_luid_"), Some(5));
    assert_eq!(find_first("abc", "abcd"), None);
    assert_eq!(find_first("abc", "x"), None);
    assert_eq!(find_first("abc", ""), Some(0));
    assert_eq!(find_first("ééx", "x"), Some(2));
}

#[test]
fn prefixes() {
    assert!(starts_with("_luid_0x1", "_luid_"));
    assert!(!starts_with("_lu", "_luid_"));
    assert!(starts_with("anything", ""));
}
