use richard::strutil::bool_str;
use richard::strutil::contains_str;
use richard::strutil::find_str;
use richard::strutil::lex_lt_str;
use richard::strutil::parse_u64;
use richard::strutil::str_eq;
use richard::strutil::u64_to_string;
use richard::strutil::upper_string;

#[test]
fn containment_is_plain_and_case_sensitive() {
    assert!(contains_str("say /ping now", "/ping"));
    assert!(contains_str("/ping", "/ping"));
    assert!(!contains_str("/PING", "/ping"));
    assert!(!contains_str("/pin", "/ping"));
    assert!(contains_str("anything", ""));
    assert!(!contains_str("", "x"));
}

#[test]
fn find_first_occurrence() {
    assert_eq!(find_str("abcabc", "bc"), Some(1));
    assert_eq!(find_str("abcabc", "zz"), None);
    assert_eq!(find_str("abc", ""), Some(0));
}

#[test]
fn string_equality() {
    assert!(str_eq("abc", "abc"));
    assert!(!str_eq("abc", "abd"));
    assert!(!str_eq("abc", "ab"));
    assert!(str_eq("", ""));
}

#[test]
fn decimal_rendering() {
    assert_eq!(u64_to_string(0), "0");
    assert_eq!(u64_to_string(7), "7");
    assert_eq!(u64_to_string(12345), "12345");
    assert_eq!(u64_to_string(1000000), "1000000");
    assert_eq!(u64_to_string(u64::MAX), "18446744073709551615");
}

#[test]
fn decimal_parsing() {
    assert_eq!(parse_u64("0"), Some(0));
    assert_eq!(parse_u64("1000"), Some(1000));
    assert_eq!(parse_u64("18446744073709551615"), Some(u64::MAX));
    assert_eq!(parse_u64("18446744073709551616"), None, "overflow is rejected");
    assert_eq!(parse_u64(""), None);
    assert_eq!(parse_u64("12a"), None);
    assert_eq!(parse_u64("-3"), None);
}

#[test]
fn round_trip_render_then_parse() {
    for n in [0u64, 1, 9, 10, 99, 100, 4096, 1000000007] {
        assert_eq!(parse_u64(&u64_to_string(n)), Some(n));
    }
}

#[test]
fn lexicographic_order_on_timestamps() {
    assert!(lex_lt_str("2024-01-01T00:00:00Z", "2024-01-02T00:00:00Z"));
    assert!(!lex_lt_str("2024-01-02T00:00:00Z", "2024-01-01T00:00:00Z"));
    assert!(!lex_lt_str("abc", "abc"));
    assert!(lex_lt_str("ab", "abc"));
    assert!(lex_lt_str("", "a"));
}

#[test]
fn uppercasing_is_ascii_only() {
    assert_eq!(upper_string("down_detectors"), "DOWN_DETECTORS");
    assert_eq!(upper_string("Ping9!"), "PING9!");
    assert_eq!(upper_string(""), "");
}

#[test]
fn boolean_rendering() {
    assert_eq!(bool_str(true), "true");
    assert_eq!(bool_str(false), "false");
}
