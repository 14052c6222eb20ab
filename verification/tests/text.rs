use scorebar::text::{
    blank, chars_of, decimal_string, eq_ignore_case, join2, join3, opt_str, parse_u16_str,
    replace_char_str, str_eq, trim_end_str, trim_str,
};

#[test]
fn trimming_goes_by_unicode_whitespace() {
    assert_eq!(trim_str("  a b \n"), "a b");
    assert_eq!(trim_str("\u{a0}\u{3000}x\u{2028}"), "x");
    assert_eq!(trim_str(""), "");
    assert_eq!(trim_end_str("  a  "), "  a");
    assert!(blank(" \t\n"));
    assert!(!blank(" x "));
}

#[test]
fn case_is_folded_for_ascii_only() {
    assert!(eq_ignore_case("Record", "RECORD"));
    assert!(!eq_ignore_case("Straße", "STRASSE"));
    assert!(!eq_ignore_case("ab", "abc"));
    assert!(str_eq("ab", "ab"));
    assert!(!str_eq("ab", "aB"));
}

#[test]
fn numbers_read_and_write_in_decimal() {
    assert_eq!(decimal_string(0), "0");
    assert_eq!(decimal_string(2026), "2026");
    assert_eq!(decimal_string(u64::MAX), "18446744073709551615");
    assert_eq!(parse_u16_str("2026"), Some(2026));
    assert_eq!(parse_u16_str("65535"), Some(65535));
    assert_eq!(parse_u16_str("65536"), None);
    assert_eq!(parse_u16_str(""), None);
    assert_eq!(parse_u16_str("20x6"), None);
    assert_eq!(parse_u16_str("-1"), None);
}

#[test]
fn strings_join_and_replace() {
    assert_eq!(join2("a", "b"), "ab");
    assert_eq!(join3("a", "-", "b"), "a-b");
    assert_eq!(replace_char_str("A_B_C", '_', ' '), "A B C");
    assert_eq!(chars_of("é!"), vec!['é', '!']);
    assert_eq!(opt_str(&Some("x".to_owned())), "x");
    assert_eq!(opt_str(&None), "");
}
