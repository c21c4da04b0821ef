//! Tokenizer tests: token kinds, positions, escapes, and lexical errors.
use rill_json::LexError;
use rill_json::LexErrorKind;
use rill_json::Token;
use rill_json::TokenType;
use rill_json::Tokenizer;
use rill_json::skip_whitespace;

fn tokenizer_of(text: &str) -> Tokenizer {
    Tokenizer::new(text.chars().collect())
}

fn all_tokens(text: &str) -> Vec<Result<Token, LexError>> {
    let mut t = tokenizer_of(text);
    let mut out = Vec::new();
    while let Some(item) = t.next_token() {
        out.push(item);
    }
    out
}

fn single_string_token(text: &str) -> Result<String, LexError> {
    let mut t = tokenizer_of(text);
    match t.next_token() {
        Some(Ok(Token { kind: TokenType::String(s), .. })) => Ok(s),
        Some(Err(e)) => Err(e),
        other => panic!("expected one string token, got {:?}", other),
    }
}

#[test]
fn test_structural_tokens_and_positions() {
    let toks = all_tokens("{ }\n[ ] : ,");
    let expected = vec![
        Ok(Token { kind: TokenType::LeftBrace, line: 1, column: 1 }),
        Ok(Token { kind: TokenType::RightBrace, line: 1, column: 3 }),
        Ok(Token { kind: TokenType::LeftBracket, line: 2, column: 1 }),
        Ok(Token { kind: TokenType::RightBracket, line: 2, column: 3 }),
        Ok(Token { kind: TokenType::Colon, line: 2, column: 5 }),
        Ok(Token { kind: TokenType::Comma, line: 2, column: 7 }),
    ];
    assert_eq!(toks, expected);
}

#[test]
fn test_empty_string_literal() {
    assert_eq!(single_string_token("\"\""), Ok("".to_string()));
}

#[test]
fn test_simple_escapes() {
    // each documented escape decodes to its single character
    let cases = vec![
        ("\"\\\"\"", "\""),
        ("\"\\\\\"", "\\"),
        ("\"\\/\"", "/"),
        ("\"\\b\"", "\u{0008}"),
        ("\"\\f\"", "\u{000C}"),
        ("\"\\n\"", "\n"),
        ("\"\\r\"", "\r"),
        ("\"\\t\"", "\t"),
    ];
    for (input, expected) in cases {
        assert_eq!(single_string_token(input), Ok(expected.to_string()), "input {:?}", input);
    }
    assert_eq!(
        single_string_token("\"hello \\\"quoted\\\" world\""),
        Ok("hello \"quoted\" world".to_string())
    );
    assert_eq!(
        single_string_token("\"line1\\nline2\\t-tabbed\""),
        Ok("line1\nline2\t-tabbed".to_string())
    );
}

#[test]
fn test_invalid_escape() {
    assert_eq!(
        single_string_token("\"invalid \\a escape\""),
        Err(LexError { kind: LexErrorKind::InvalidEscape, line: 1, column: 10 })
    );
}

#[test]
fn test_unterminated_string() {
    assert_eq!(
        single_string_token("\"hello"),
        Err(LexError { kind: LexErrorKind::UnterminatedString, line: 1, column: 7 })
    );
    assert_eq!(
        single_string_token("\"hello \\"),
        Err(LexError { kind: LexErrorKind::UnterminatedString, line: 1, column: 9 })
    );
}

#[test]
fn test_unicode_escapes() {
    assert_eq!(single_string_token("\"\\u0041\""), Ok("A".to_string()));
    assert_eq!(single_string_token("\"\\u00e9\""), Ok("\u{e9}".to_string()));
    // a surrogate pair forms one character outside the basic plane
    assert_eq!(single_string_token("\"\\ud83d\\ude00\""), Ok("\u{1F600}".to_string()));
}

#[test]
fn test_unpaired_surrogates() {
    assert_eq!(
        single_string_token("\"\\ud800\""),
        Err(LexError { kind: LexErrorKind::UnpairedSurrogate, line: 1, column: 2 })
    );
    assert_eq!(
        single_string_token("\"\\udc00\""),
        Err(LexError { kind: LexErrorKind::UnpairedSurrogate, line: 1, column: 2 })
    );
    assert_eq!(
        single_string_token("\"\\ud800\\u0041\""),
        Err(LexError { kind: LexErrorKind::UnpairedSurrogate, line: 1, column: 2 })
    );
}

#[test]
fn test_partial_unicode_escape() {
    assert_eq!(
        single_string_token("\"\\u12\""),
        Err(LexError { kind: LexErrorKind::InvalidEscape, line: 1, column: 2 })
    );
}

#[test]
fn test_number_tokens() {
    let toks = all_tokens("123 -12.5e3 0 0.25 1E+2");
    let texts: Vec<String> = toks
        .into_iter()
        .map(|t| match t {
            Ok(Token { kind: TokenType::Number(s), .. }) => s,
            other => panic!("expected a number token, got {:?}", other),
        })
        .collect();
    assert_eq!(texts, vec!["123", "-12.5e3", "0", "0.25", "1E+2"]);
}

#[test]
fn test_malformed_numbers() {
    for input in ["01", "1.2.3", "-", "1e", "1.", "-.5"] {
        let mut t = tokenizer_of(input);
        assert_eq!(
            t.next_token(),
            Some(Err(LexError { kind: LexErrorKind::MalformedNumber, line: 1, column: 1 })),
            "input {:?}",
            input
        );
        // after the error the sequence has ended
        assert_eq!(t.next_token(), None);
    }
}

#[test]
fn test_word_tokens() {
    let toks = all_tokens("true false null");
    let expected = vec![
        Ok(Token { kind: TokenType::Boolean(true), line: 1, column: 1 }),
        Ok(Token { kind: TokenType::Boolean(false), line: 1, column: 6 }),
        Ok(Token { kind: TokenType::Null, line: 1, column: 12 }),
    ];
    assert_eq!(toks, expected);
}

#[test]
fn test_word_with_continuation_is_an_error() {
    let mut t = tokenizer_of("truee");
    assert_eq!(
        t.next_token(),
        Some(Err(LexError { kind: LexErrorKind::UnexpectedCharacter, line: 1, column: 1 }))
    );
}

#[test]
fn test_unexpected_character() {
    let mut t = tokenizer_of("  @");
    assert_eq!(
        t.next_token(),
        Some(Err(LexError { kind: LexErrorKind::UnexpectedCharacter, line: 1, column: 3 }))
    );
}

#[test]
fn test_skip_whitespace() {
    let input: Vec<char> = " \t\n  x".chars().collect();
    let (pos, line, col) = skip_whitespace(&input, 0, 1, 1);
    assert_eq!((pos, line, col), (5, 2, 3));
    // no whitespace to skip
    let input2: Vec<char> = "x".chars().collect();
    assert_eq!(skip_whitespace(&input2, 0, 1, 1), (0, 1, 1));
}
