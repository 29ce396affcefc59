use coop_async::text::{decimal_string, join, show_option, wrap_some};

#[test]
fn decimal_of_small_and_large_numbers() {
    assert_eq!(decimal_string(0), "0");
    assert_eq!(decimal_string(7), "7");
    assert_eq!(decimal_string(10), "10");
    assert_eq!(decimal_string(909), "909");
    assert_eq!(decimal_string(1234567890), "1234567890");
    assert_eq!(decimal_string(u64::MAX), "18446744073709551615");
}

#[test]
fn decimal_agrees_with_the_standard_form() {
    for n in (0..5000u64).chain([99_999, 100_000, u32::MAX as u64]) {
        assert_eq!(decimal_string(n), n.to_string());
    }
}

#[test]
fn an_optional_string_in_debug_form() {
    assert_eq!(show_option(&None), "None");
    assert_eq!(show_option(&Some("Fast".to_string())), "Some(\"Fast\")");
    assert_eq!(show_option(&Some(String::new())), "Some(\"\")");
    assert_eq!(show_option(&Some("a\\b\t'c'".to_string())), "Some(\"a\\\\b\\t'c'\")");
    for text in ["plain", "tab\there", "quote\"d", "uni\u{301}code", "\u{7f}"] {
        let value = Some(text.to_string());
        assert_eq!(show_option(&value), format!("{:?}", value));
    }
}

#[test]
fn a_present_value_is_wrapped_in_some() {
    assert_eq!(wrap_some("\"Fast\""), "Some(\"Fast\")");
    assert_eq!(wrap_some(""), "Some()");
    assert_eq!(wrap_some("1"), "Some(1)");
}

#[test]
fn pieces_are_joined_in_order_with_nothing_between() {
    let pieces = vec!["a".to_string(), String::new(), "b c".to_string(), "d".to_string()];
    assert_eq!(join(&pieces), "ab cd");
    assert_eq!(join(&vec!["alone".to_string()]), "alone");
    assert_eq!(join(&Vec::new()), "");
}
