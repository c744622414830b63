use slogx::json::{encode_items, json_string};
use slogx::value::have_distinct_keys;
use slogx::{JsonNumber, StructuredValue};

fn text(s: &str) -> StructuredValue {
    StructuredValue::String(s.to_string())
}

fn number(s: &str) -> StructuredValue {
    StructuredValue::Number(JsonNumber::parse(s).unwrap())
}

fn member(key: &str, value: StructuredValue) -> (String, StructuredValue) {
    (key.to_string(), value)
}

fn to_outside(value: &StructuredValue) -> serde_json::Value {
    match value {
        StructuredValue::Null => serde_json::Value::Null,
        StructuredValue::Bool(b) => serde_json::Value::Bool(*b),
        StructuredValue::Number(n) => serde_json::Value::Number(n.as_str().parse().unwrap()),
        StructuredValue::String(s) => serde_json::Value::String(s.clone()),
        StructuredValue::Sequence(items) => {
            serde_json::Value::Array(items.iter().map(to_outside).collect())
        }
        StructuredValue::Mapping(members) => serde_json::Value::Object(
            members.iter().map(|(k, v)| (k.clone(), to_outside(v))).collect(),
        ),
    }
}

fn nested_sample() -> StructuredValue {
    StructuredValue::Mapping(vec![
        member("empty_obj", StructuredValue::Mapping(vec![])),
        member("empty_arr", StructuredValue::Sequence(vec![])),
        member("null_val", StructuredValue::Null),
        member("zero", number("0")),
        member("empty_str", text("")),
        member(
            "server",
            StructuredValue::Mapping(vec![
                member("host", text("0.0.0.0")),
                member("port", number("8080")),
                member(
                    "tls",
                    StructuredValue::Mapping(vec![
                        member("enabled", StructuredValue::Bool(true)),
                        member("cert", text("/etc/ssl/cert.pem")),
                    ]),
                ),
            ]),
        ),
        member("items", StructuredValue::Sequence(vec![text("item1"), text("item2"), number("-3.5e2")])),
    ])
}

#[test]
fn scalars_encode_as_json_literals() {
    assert_eq!(StructuredValue::Null.to_json(), "null");
    assert_eq!(StructuredValue::Bool(true).to_json(), "true");
    assert_eq!(StructuredValue::Bool(false).to_json(), "false");
    assert_eq!(number("89.5").to_json(), "89.5");
    assert_eq!(text("hello").to_json(), "\"hello\"");
}

#[test]
fn strings_are_quoted_and_escaped() {
    assert_eq!(json_string(""), "\"\"");
    assert_eq!(json_string("plain"), "\"plain\"");
    assert_eq!(json_string("Said \"hello\""), "\"Said \\\"hello\\\"\"");
    assert_eq!(json_string("a\\b"), "\"a\\\\b\"");
    assert_eq!(json_string("line\nbreak\ttab"), "\"line\\nbreak\\ttab\"");
    assert_eq!(json_string("\u{1}"), "\"\\u0001\"");
    assert_eq!(json_string("<script>alert('xss')</script>"), "\"<script>alert('xss')</script>\"");
}

#[test]
fn unicode_strings_are_kept_as_they_are() {
    assert_eq!(json_string("\u{4f60}\u{597d} \u{1f980}"), "\"\u{4f60}\u{597d} \u{1f980}\"");
    assert_eq!(text("\u{1f680}").to_json(), "\"\u{1f680}\"");
}

#[test]
fn sequences_encode_in_order() {
    assert_eq!(StructuredValue::Sequence(vec![]).to_json(), "[]");
    assert_eq!(StructuredValue::Sequence(vec![number("1")]).to_json(), "[1]");
    assert_eq!(
        StructuredValue::Sequence(vec![number("1"), text("two"), StructuredValue::Null]).to_json(),
        "[1,\"two\",null]"
    );
    assert_eq!(
        StructuredValue::Sequence(vec![StructuredValue::Sequence(vec![]), StructuredValue::Sequence(vec![number("2")])])
            .to_json(),
        "[[],[2]]"
    );
}

#[test]
fn mappings_keep_the_order_of_their_members() {
    assert_eq!(StructuredValue::Mapping(vec![]).to_json(), "{}");
    assert_eq!(StructuredValue::Mapping(vec![member("n", number("1"))]).to_json(), "{\"n\":1}");
    assert_eq!(
        StructuredValue::Mapping(vec![member("z", number("1")), member("a", StructuredValue::Bool(false))]).to_json(),
        "{\"z\":1,\"a\":false}"
    );
    assert_eq!(
        StructuredValue::Mapping(vec![member("a \"key\"", text("v"))]).to_json(),
        "{\"a \\\"key\\\"\":\"v\"}"
    );
}

#[test]
fn encode_items_joins_with_commas() {
    assert_eq!(encode_items(&vec![]), "");
    assert_eq!(encode_items(&vec![text("only")]), "\"only\"");
    assert_eq!(encode_items(&vec![text("hello"), StructuredValue::Mapping(vec![member("n", number("1"))])]), "\"hello\",{\"n\":1}");
}

#[test]
fn nested_values_parse_back_to_themselves() {
    let value = nested_sample();
    let parsed: serde_json::Value = serde_json::from_str(&value.to_json()).unwrap();
    assert_eq!(parsed, to_outside(&value));
}

#[test]
fn encoding_agrees_with_the_serializer_on_sorted_mappings() {
    let value = StructuredValue::Mapping(vec![
        member("a", StructuredValue::Sequence(vec![number("1"), number("2.5"), text("x\ny")])),
        member("b", StructuredValue::Mapping(vec![member("c", StructuredValue::Null)])),
        member("d", text("\u{e9}\u{1f980}\"")),
    ]);
    assert_eq!(value.to_json(), serde_json::to_string(&to_outside(&value)).unwrap());
}

#[test]
fn a_duplicate_equals_the_value() {
    let value = nested_sample();
    let copy = value.duplicate();
    assert_eq!(copy, value);
    assert_eq!(copy.to_json(), value.to_json());
    assert_eq!(value.clone(), value);
}

#[test]
fn distinct_keys_are_tested_at_every_depth() {
    assert!(StructuredValue::Null.has_distinct_keys());
    assert!(text("x").has_distinct_keys());
    assert!(StructuredValue::Mapping(vec![]).has_distinct_keys());
    assert!(StructuredValue::Sequence(vec![]).has_distinct_keys());
    assert!(nested_sample().has_distinct_keys());
    assert!(StructuredValue::Mapping(vec![member("a", number("1")), member("b", number("1"))]).has_distinct_keys());
    assert!(!StructuredValue::Mapping(vec![member("a", number("1")), member("a", number("2"))]).has_distinct_keys());
    assert!(!StructuredValue::Mapping(vec![
        member("a", number("1")),
        member("b", number("2")),
        member("c", number("3")),
        member("b", number("4")),
    ])
    .has_distinct_keys());
    let inner = StructuredValue::Mapping(vec![member("k", text("v")), member("k", text("w"))]);
    assert!(!StructuredValue::Sequence(vec![number("1"), inner.clone()]).has_distinct_keys());
    assert!(!StructuredValue::Mapping(vec![member("outer", StructuredValue::Sequence(vec![inner]))]).has_distinct_keys());
    let same_key_at_two_depths =
        StructuredValue::Mapping(vec![member("k", StructuredValue::Mapping(vec![member("k", number("1"))]))]);
    assert!(same_key_at_two_depths.has_distinct_keys());
}

#[test]
fn a_sequence_of_values_is_tested_value_by_value() {
    assert!(have_distinct_keys(&vec![]));
    assert!(have_distinct_keys(&vec![text("a"), nested_sample()]));
    let twice = StructuredValue::Mapping(vec![member("a", number("1")), member("a", number("2"))]);
    assert!(!have_distinct_keys(&vec![text("a"), twice]));
}

fn expected_literal(s: &str) -> String {
    let mut out = String::from("\"");
    for c in s.chars() {
        match c {
            '"' => out.push_str("\\\""),
            '\\' => out.push_str("\\\\"),
            '\u{8}' => out.push_str("\\b"),
            '\t' => out.push_str("\\t"),
            '\n' => out.push_str("\\n"),
            '\u{c}' => out.push_str("\\f"),
            '\r' => out.push_str("\\r"),
            c if (c as u32) < 0x20 => out.push_str(&format!("\\u00{:x}{:x}", (c as u32) / 16, (c as u32) % 16)),
            c => out.push(c),
        }
    }
    out.push('"');
    out
}

#[test]
fn every_character_stands_as_the_escape_table_says() {
    for code in 0u32..0x300 {
        let c = char::from_u32(code).unwrap();
        let s = c.to_string();
        assert_eq!(json_string(&s), expected_literal(&s), "{}", code);
    }
    for c in ['\u{7f}', '\u{80}', '\u{2028}', '\u{2029}', '\u{fffd}', '\u{ffff}', '\u{10000}', '\u{10ffff}', '/'] {
        let s = c.to_string();
        assert_eq!(json_string(&s), format!("\"{}\"", c));
    }
}

#[test]
fn control_characters_are_written_with_lower_case_hexadecimal_digits() {
    assert_eq!(json_string("\u{0}"), "\"\\u0000\"");
    assert_eq!(json_string("\u{b}"), "\"\\u000b\"");
    assert_eq!(json_string("\u{1f}"), "\"\\u001f\"");
    assert_eq!(json_string("\u{1a}\u{8}\u{c}"), "\"\\u001a\\b\\f\"");
    assert_eq!(json_string("a\u{1}\"b\\\u{e9}\n"), "\"a\\u0001\\\"b\\\\\u{e9}\\n\"");
}

#[test]
fn a_text_is_escaped_character_by_character() {
    let s = "tab\there \"quoted\" back\\slash \u{1f980} nul\u{0}";
    assert_eq!(json_string(s), expected_literal(s));
    assert_eq!(json_string(s), serde_json::to_string(s).unwrap());
}
