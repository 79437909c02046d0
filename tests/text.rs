use cf_dns_sync::text::{contains_fragment, decimal_text, parse_i32, strip_quotes};

#[test]
fn quotes_are_removed_everywhere() {
    assert_eq!(strip_quotes("\"a\"b\"\""), "ab");
    assert_eq!(strip_quotes(""), "");
    assert_eq!(strip_quotes("plain"), "plain");
}

#[test]
fn fragments_are_found() {
    assert!(contains_fragment("abcdef", "cde"));
    assert!(contains_fragment("abc", ""));
    assert!(!contains_fragment("abc", "abcd"));
    assert!(!contains_fragment("abcabd", "abe"));
}

#[test]
fn decimal_writing() {
    assert_eq!(decimal_text(0), "0");
    assert_eq!(decimal_text(7), "7");
    assert_eq!(decimal_text(10), "10");
    assert_eq!(decimal_text(18446744073709551615), "18446744073709551615");
}

#[test]
fn i32_reading_matches_std() {
    for s in ["0", "42", "+42", "-42", "2147483647", "-2147483648", "2147483648", "-2147483649", "", "-", "+",
        "12a", " 1", "007", "99999999999999999999"]
    {
        assert_eq!(parse_i32(s), s.parse::<i32>().ok(), "{s}");
    }
}
