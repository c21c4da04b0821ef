//! Serializer tests: compact and indented layouts, and string escaping.
use rill_json::JsonValue;

#[test]
fn test_compact_scalars() {
    assert_eq!(JsonValue::Null.stringify(), "null");
    assert_eq!(JsonValue::Boolean(true).stringify(), "true");
    assert_eq!(JsonValue::Boolean(false).stringify(), "false");
    assert_eq!(JsonValue::Number("123".to_string()).stringify(), "123");
    assert_eq!(JsonValue::Number("-12.5e3".to_string()).stringify(), "-12.5e3");
    assert_eq!(JsonValue::String("hi".to_string()).stringify(), "\"hi\"");
}

#[test]
fn test_compact_object_with_array() {
    // the scenario: key "key" mapped to the array [1, null]
    let v = JsonValue::Object(vec![(
        "key".to_string(),
        JsonValue::Array(vec![JsonValue::Number("1".to_string()), JsonValue::Null]),
    )]);
    assert_eq!(v.stringify(), "{\"key\":[1,null]}");
}

#[test]
fn test_pretty_object_with_array() {
    let v = JsonValue::Object(vec![(
        "key".to_string(),
        JsonValue::Array(vec![JsonValue::Number("1".to_string()), JsonValue::Null]),
    )]);
    assert_eq!(v.stringify_pretty(), "{\n  \"key\": [\n    1,\n    null\n  ]\n}");
}

#[test]
fn test_pretty_empty_containers() {
    assert_eq!(JsonValue::Array(vec![]).stringify_pretty(), "[]");
    assert_eq!(JsonValue::Object(vec![]).stringify_pretty(), "{}");
    assert_eq!(JsonValue::Array(vec![]).stringify(), "[]");
    assert_eq!(JsonValue::Object(vec![]).stringify(), "{}");
}

#[test]
fn test_string_escaping() {
    let v = JsonValue::String("a\"b\\c/d\u{0008}e\u{000C}f\ng\rh\ti".to_string());
    assert_eq!(v.stringify(), "\"a\\\"b\\\\c\\/d\\be\\ff\\ng\\rh\\ti\"");
    // control characters without a named escape use lowercase \u00xx
    let c = JsonValue::String("\u{1}\u{1f}".to_string());
    assert_eq!(c.stringify(), "\"\\u0001\\u001f\"");
    // characters outside ASCII pass through unescaped
    let u = JsonValue::String("\u{e9}\u{1F600}".to_string());
    assert_eq!(u.stringify(), "\"\u{e9}\u{1F600}\"");
}

#[test]
fn test_nested_pretty_layout() {
    let v = JsonValue::Array(vec![
        JsonValue::Object(vec![("a".to_string(), JsonValue::Boolean(true))]),
        JsonValue::Array(vec![]),
    ]);
    assert_eq!(
        v.stringify_pretty(),
        "[\n  {\n    \"a\": true\n  },\n  []\n]"
    );
}
