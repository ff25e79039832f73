use ruburu::text::{
    borrowed, chars_of, decimal, owned, parse_id, same_text, string_of, text_before,
};

#[test]
fn parse_id_reads_digits() {
    assert_eq!(parse_id("0"), Some(0));
    assert_eq!(parse_id("42"), Some(42));
    assert_eq!(parse_id("0042"), Some(42));
    assert_eq!(parse_id("2147483647"), Some(i32::MAX));
}

#[test]
fn parse_id_refuses_what_is_no_id() {
    assert_eq!(parse_id(""), None);
    assert_eq!(parse_id("2147483648"), None);
    assert_eq!(parse_id("99999999999999999999999999"), None);
    assert_eq!(parse_id("-1"), None);
    assert_eq!(parse_id("+1"), None);
    assert_eq!(parse_id("1a"), None);
    assert_eq!(parse_id("٣"), None);
}

#[test]
fn decimal_writes_numbers() {
    assert_eq!(decimal(0), "0");
    assert_eq!(decimal(7), "7");
    assert_eq!(decimal(120), "120");
    assert_eq!(decimal(-45), "-45");
    assert_eq!(decimal(i32::MAX), "2147483647");
    assert_eq!(decimal(i32::MIN), "-2147483648");
}

#[test]
fn chars_and_strings_convert() {
    let chars = chars_of("héllo");
    assert_eq!(chars, vec!['h', 'é', 'l', 'l', 'o']);
    assert_eq!(string_of(&chars, 1, 4), "éll");
    assert_eq!(string_of(&chars, 2, 2), "");
}

#[test]
fn same_text_compares() {
    assert!(same_text("abc", "abc"));
    assert!(same_text("", ""));
    assert!(!same_text("abc", "abd"));
    assert!(!same_text("abc", "ab"));
}

#[test]
fn text_before_orders_like_a_dictionary() {
    assert!(text_before("a", "b"));
    assert!(text_before("a", "ab"));
    assert!(text_before("", "a"));
    assert!(!text_before("a", "a"));
    assert!(!text_before("b", "a"));
    assert!(!text_before("ab", "a"));
    assert!(text_before("B", "a"));
    assert!(text_before("z", "é"));
}

#[test]
fn optional_texts_convert() {
    assert_eq!(owned(Some("x")), Some("x".to_string()));
    assert_eq!(owned(None), None);
    assert_eq!(borrowed(&Some("x".to_string())), Some("x"));
    assert_eq!(borrowed(&None), None);
}
