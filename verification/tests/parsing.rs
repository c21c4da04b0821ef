//! Whole-document parsing and streaming-event tests.
use rill_json::JsonValue;
use rill_json::ParseError;
use rill_json::ParseEvent;
use rill_json::ScalarValue;
use rill_json::LexError;
use rill_json::LexErrorKind;
use rill_json::parse_document;
use rill_json::parse_streaming;

/// Parses `text` and checks the resulting value against `expected`.
fn assert_parses_to(text: &str, expected: &JsonValue) {
    let got = parse_document(text).expect("document parses");
    assert!(got.equals(expected), "parsed {:?}, expected {:?}", got, expected);
}

#[test]
fn test_parse_null() {
    assert_parses_to("null", &JsonValue::Null);
}

#[test]
fn test_parse_booleans() {
    assert_parses_to("true", &JsonValue::Boolean(true));
    assert_parses_to("false", &JsonValue::Boolean(false));
}

#[test]
fn test_parse_numbers() {
    assert_parses_to("123", &JsonValue::Number("123".to_string()));
    assert_parses_to("-12.5e3", &JsonValue::Number("-12.5e3".to_string()));
    assert_parses_to("0", &JsonValue::Number("0".to_string()));
    assert_parses_to("0.25", &JsonValue::Number("0.25".to_string()));
}

#[test]
fn test_parse_arrays() {
    assert_parses_to("[]", &JsonValue::Array(vec![]));
    assert_parses_to("[1,true,null]", &JsonValue::Array(vec![
            JsonValue::Number("1".to_string()),
            JsonValue::Boolean(true),
            JsonValue::Null,
        ]));
    assert_parses_to("[[],[1]]", &JsonValue::Array(vec![
            JsonValue::Array(vec![]),
            JsonValue::Array(vec![JsonValue::Number("1".to_string())]),
        ]));
}

#[test]
fn test_parse_objects() {
    assert_parses_to("{}", &JsonValue::Object(vec![]));
    assert_parses_to("{\"a\":1}", &JsonValue::Object(vec![("a".to_string(), JsonValue::Number("1".to_string()))]));
    assert_parses_to("{\"a\":{\"b\":null}}", &JsonValue::Object(vec![(
            "a".to_string(),
            JsonValue::Object(vec![("b".to_string(), JsonValue::Null)])
        )]));
}

#[test]
fn test_parse_with_whitespace() {
    assert_parses_to(" \t\r\n { \"a\" : [ 1 , 2 ] } ", &JsonValue::Object(vec![(
            "a".to_string(),
            JsonValue::Array(vec![
                JsonValue::Number("1".to_string()),
                JsonValue::Number("2".to_string()),
            ])
        )]));
}

#[test]
fn test_streaming_event_sequence() {
    // the scenario: one object holding one array of three scalars
    let mut p = parse_streaming("{ \"key\": [1, true, null] }");
    let mut events = Vec::new();
    while let Some(ev) = p.next_event() {
        events.push(ev.expect("no error in this document"));
    }
    assert_eq!(
        events,
        vec![
            ParseEvent::StartObject,
            ParseEvent::Key("key".to_string()),
            ParseEvent::StartArray,
            ParseEvent::Scalar(ScalarValue::Number("1".to_string())),
            ParseEvent::Scalar(ScalarValue::Boolean(true)),
            ParseEvent::Scalar(ScalarValue::Null),
            ParseEvent::EndArray,
            ParseEvent::EndObject,
        ]
    );
}

#[test]
fn test_missing_value_reports_expected() {
    // the error points at the `}` and says a value was expected
    let e = parse_document("{\"a\": }").unwrap_err();
    assert_eq!(
        e,
        ParseError::UnexpectedToken { line: 1, column: 7, expected: "a value".to_string() }
    );
}

#[test]
fn test_close_after_comma_is_rejected() {
    assert_eq!(
        parse_document("[1,]").unwrap_err(),
        ParseError::UnexpectedToken { line: 1, column: 4, expected: "a value".to_string() }
    );
    assert_eq!(
        parse_document("{\"a\":1,}").unwrap_err(),
        ParseError::UnexpectedToken { line: 1, column: 8, expected: "a key".to_string() }
    );
}

#[test]
fn test_unexpected_end_of_input() {
    assert_eq!(
        parse_document("[1,").unwrap_err(),
        ParseError::UnexpectedEndOfInput { line: 1, column: 4 }
    );
    assert_eq!(
        parse_document("").unwrap_err(),
        ParseError::UnexpectedEndOfInput { line: 1, column: 1 }
    );
}

#[test]
fn test_trailing_data() {
    assert_eq!(
        parse_document("1 2").unwrap_err(),
        ParseError::TrailingData { line: 1, column: 3 }
    );
}

#[test]
fn test_lexical_error_ends_the_sequence() {
    assert_eq!(
        parse_document("@").unwrap_err(),
        ParseError::Lex(LexError { kind: LexErrorKind::UnexpectedCharacter, line: 1, column: 1 })
    );
}

#[test]
fn test_duplicate_keys_keep_the_last_value() {
    assert_parses_to(
        "{\"a\":1,\"a\":2}",
        &JsonValue::Object(vec![("a".to_string(), JsonValue::Number("2".to_string()))]),
    );
}

#[test]
fn test_deep_nesting_streams() {
    // 10,000 nested arrays stream without recursion in the parser
    let n = 10000;
    let input = "[".repeat(n) + &"]".repeat(n);
    let mut p = parse_streaming(&input);
    let mut opens = 0usize;
    let mut closes = 0usize;
    while let Some(ev) = p.next_event() {
        match ev.expect("deep nesting parses cleanly") {
            ParseEvent::StartArray => opens += 1,
            ParseEvent::EndArray => closes += 1,
            other => panic!("unexpected event {:?}", other),
        }
    }
    assert_eq!(opens, n);
    assert_eq!(closes, n);
}

#[test]
fn test_round_trip() {
    // materializing the events of the compact rendering gives the value back
    let values = vec![
        JsonValue::Null,
        JsonValue::Boolean(true),
        JsonValue::Number("-12.5e3".to_string()),
        JsonValue::String("a \"quoted\"\nline/\u{1}".to_string()),
        JsonValue::Array(vec![
            JsonValue::Number("1".to_string()),
            JsonValue::Array(vec![]),
            JsonValue::Object(vec![("k".to_string(), JsonValue::Null)]),
        ]),
        JsonValue::Object(vec![
            ("a".to_string(), JsonValue::Boolean(false)),
            ("b".to_string(), JsonValue::Array(vec![JsonValue::String("x".to_string())])),
        ]),
    ];
    for v in values {
        let text = v.stringify();
        let back = parse_document(&text).expect("rendered text parses");
        assert!(back.equals(&v), "round trip changed {:?} into {:?}", v, back);
    }
}

#[test]
fn test_stringify_idempotent() {
    let v = JsonValue::Object(vec![
        ("a".to_string(), JsonValue::Array(vec![JsonValue::Number("1".to_string())])),
        ("b".to_string(), JsonValue::String("two".to_string())),
    ]);
    let once = v.stringify();
    let again = parse_document(&once).expect("parses").stringify();
    assert_eq!(again, once);
}
