use slogx::number::{digit, is_number, scan_digits};
use slogx::JsonNumber;

fn accepted() -> Vec<&'static str> {
    vec![
        "0", "-0", "1", "9", "10", "42", "-7", "1234567890", "0.5", "-0.5", "89.5", "3.14159", "1e5",
        "1E5", "1e+5", "1e-5", "-1.25e-10", "0e0", "0.0", "12.50", "1.0E+2", "18446744073709551616",
    ]
}

fn refused() -> Vec<&'static str> {
    vec![
        "", "-", "+1", "01", "-01", "00", "1.", ".5", "-.5", "1.e5", "1e", "1e+", "1e-", "e5", "1.5.5",
        "1e5e5", "1 ", " 1", "1a", "0x10", "NaN", "Infinity", "--1", "1-", "1e5.5", "\u{661}", "1,5", "- 1",
    ]
}

#[test]
fn numerals_of_the_grammar_are_accepted() {
    for text in accepted() {
        assert!(is_number(text), "{}", text);
        assert!(serde_json::from_str::<serde_json::Value>(text).unwrap().is_number());
    }
}

#[test]
fn other_texts_are_refused() {
    for text in refused() {
        assert!(!is_number(text), "{}", text);
        let parsed = serde_json::from_str::<serde_json::Value>(text);
        assert!(!matches!(parsed, Ok(serde_json::Value::Number(_))) || text.trim() != text);
    }
}

#[test]
fn parse_keeps_the_numeral() {
    assert_eq!(JsonNumber::parse("89.5").unwrap().as_str(), "89.5");
    assert_eq!(JsonNumber::parse("-1e-3").unwrap().as_str(), "-1e-3");
    assert_eq!(JsonNumber::parse("01"), None);
    assert_eq!(JsonNumber::parse(""), None);
    assert_eq!(JsonNumber::parse("one"), None);
}

#[test]
fn integers_become_their_decimal_numerals() {
    assert_eq!(JsonNumber::from_u64(0).as_str(), "0");
    assert_eq!(JsonNumber::from_u64(8080).as_str(), "8080");
    assert_eq!(JsonNumber::from_u64(u64::MAX).as_str(), "18446744073709551615");
    assert_eq!(JsonNumber::from_i64(0).as_str(), "0");
    assert_eq!(JsonNumber::from_i64(42).as_str(), "42");
    assert_eq!(JsonNumber::from_i64(-1).as_str(), "-1");
    assert_eq!(JsonNumber::from_i64(i64::MAX).as_str(), "9223372036854775807");
    assert_eq!(JsonNumber::from_i64(i64::MIN).as_str(), "-9223372036854775808");
}

#[test]
fn numbers_compare_and_copy_by_their_numeral() {
    let n = JsonNumber::parse("1.50").unwrap();
    assert_eq!(n.clone(), n);
    assert_ne!(n, JsonNumber::parse("1.5").unwrap());
    assert_eq!(JsonNumber::from_u64(7), JsonNumber::parse("7").unwrap());
}

#[test]
fn digits_are_the_ten_decimal_ones() {
    for c in "0123456789".chars() {
        assert!(digit(c));
    }
    for c in "/:aA-+.e \u{661}".chars() {
        assert!(!digit(c));
    }
}

#[test]
fn scan_digits_stops_at_the_first_other_character() {
    let text: Vec<char> = "12a345".chars().collect();
    assert_eq!(scan_digits(&text, 0), 2);
    assert_eq!(scan_digits(&text, 1), 2);
    assert_eq!(scan_digits(&text, 2), 2);
    assert_eq!(scan_digits(&text, 3), 6);
    assert_eq!(scan_digits(&text, 6), 6);
}
