use win_event_engine::pattern::{is_valid_glob, is_valid_regex};
use win_event_engine::text::{
    chars_of, concat2, concat3, contains, contains_ignore_case, decimal_chars, i64_to_string, join,
    push_hex_byte, seconds_to_string, starts_with, str_eq, u64_to_string, wide_decimal_chars,
};

#[test]
fn numbers_in_decimal() {
    assert_eq!(u64_to_string(0), "0");
    assert_eq!(u64_to_string(7), "7");
    assert_eq!(u64_to_string(10), "10");
    assert_eq!(u64_to_string(1_000_000), "1000000");
    assert_eq!(u64_to_string(u64::MAX), "18446744073709551615");
    assert_eq!(i64_to_string(0), "0");
    assert_eq!(i64_to_string(-1), "-1");
    assert_eq!(i64_to_string(i64::MIN), "-9223372036854775808");
    assert_eq!(i64_to_string(i64::MAX), "9223372036854775807");
    assert_eq!(decimal_chars(405), vec!['4', '0', '5']);
}

#[test]
fn bytes_in_hexadecimal() {
    let mut out = vec!['x'];
    push_hex_byte(&mut out, 0x00);
    push_hex_byte(&mut out, 0x0a);
    push_hex_byte(&mut out, 0xf9);
    assert_eq!(out.iter().collect::<String>(), "x000af9");
}

#[test]
fn searching_and_joining() {
    assert!(contains("hello world", "lo w"));
    assert!(contains("hello", ""));
    assert!(contains("", ""));
    assert!(!contains("", "a"));
    assert!(!contains("hello", "hello!"));
    assert!(!contains("aab", "abb"));
    assert!(contains("aab", "ab"));
    assert!(contains_ignore_case("Google CHROME", "chrome"));
    assert!(!contains_ignore_case("Google", "chrome"));
    assert!(starts_with("HKEY_USERS\\x", "HKEY_USERS"));
    assert!(starts_with("abc", ""));
    assert!(!starts_with("ab", "abc"));
    assert!(!starts_with("abd", "abc"));
    assert!(str_eq("é", "é"));
    assert!(!str_eq("a", "b"));
    assert_eq!(chars_of("héllo"), vec!['h', 'é', 'l', 'l', 'o']);
    assert_eq!(concat2("a", "b"), "ab");
    assert_eq!(concat3("a", "", "c"), "ac");
    assert_eq!(join(&vec![], ","), "");
    assert_eq!(join(&vec!["a".to_string()], ","), "a");
    assert_eq!(join(&vec!["a".to_string(), "".to_string(), "c".to_string()], ", "), "a, , c");
}

#[test]
fn patterns_are_checked_by_their_crates() {
    assert!(is_valid_glob("*.txt"));
    assert!(is_valid_glob("**/*.rs"));
    assert!(!is_valid_glob("["));
    assert!(!is_valid_glob("a**b"));
    assert!(is_valid_regex("notepad.*"));
    assert!(is_valid_regex(""));
    assert!(!is_valid_regex("("));
    assert!(!is_valid_regex("a{2,1}"));
}

#[test]
fn nanoseconds_are_written_in_seconds_exactly() {
    assert_eq!(seconds_to_string(0), "0");
    assert_eq!(seconds_to_string(1), "0.000000001");
    assert_eq!(seconds_to_string(10), "0.00000001");
    assert_eq!(seconds_to_string(500_000_000), "0.5");
    assert_eq!(seconds_to_string(1_000_000_000), "1");
    assert_eq!(seconds_to_string(1_230_000_000), "1.23");
    assert_eq!(seconds_to_string(12_000_000_001), "12.000000001");
    assert_eq!(seconds_to_string(100_000_000_000), "100");
    assert_eq!(
        seconds_to_string(u128::MAX),
        "340282366920938463463374607431.768211455"
    );
    assert_eq!(
        wide_decimal_chars(u128::MAX).into_iter().collect::<String>(),
        "340282366920938463463374607431768211455"
    );
}
