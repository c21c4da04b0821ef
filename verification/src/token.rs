//! Tokens: the smallest meaningful units of the JSON grammar, with their
//! 1-indexed source position, and the lexical errors that scanning can raise.
use vstd::prelude::*;

verus! {

/// The specific type of a [`Token`].
#[derive(Debug, PartialEq, Clone)]
pub enum TokenType {
    /// `{`
    LeftBrace,
    /// `}`
    RightBrace,
    /// `[`
    LeftBracket,
    /// `]`
    RightBracket,
    /// `:`
    Colon,
    /// `,`
    Comma,
    /// A string literal, with its escapes already decoded.
    String(String),
    /// A number literal, as its validated lexical text.
    Number(String),
    /// `true` or `false`.
    Boolean(bool),
    /// The `null` literal.
    Null,
}

/// The mathematical counterpart of [`TokenType`], over `Seq`.
pub enum GTokKind {
    GLBrace,
    GRBrace,
    GLBracket,
    GRBracket,
    GColon,
    GComma,
    GStr(Seq<char>),
    GNum(Seq<char>),
    GBool(bool),
    GNull,
}

impl TokenType {
    /// The mathematical token kind this `TokenType` denotes.
    pub open spec fn gview(&self) -> GTokKind {
        match self {
            TokenType::LeftBrace => GTokKind::GLBrace,
            TokenType::RightBrace => GTokKind::GRBrace,
            TokenType::LeftBracket => GTokKind::GLBracket,
            TokenType::RightBracket => GTokKind::GRBracket,
            TokenType::Colon => GTokKind::GColon,
            TokenType::Comma => GTokKind::GComma,
            TokenType::String(s) => GTokKind::GStr(s@),
            TokenType::Number(t) => GTokKind::GNum(t@),
            TokenType::Boolean(b) => GTokKind::GBool(*b),
            TokenType::Null => GTokKind::GNull,
        }
    }
}

/// A single token produced by the tokenizer, with the 1-indexed line and
/// column of its first character.
#[derive(Debug, PartialEq, Clone)]
pub struct Token {
    /// The type of the token.
    pub kind: TokenType,
    /// The 1-indexed line number where the token starts.
    pub line: usize,
    /// The 1-indexed column number where the token starts.
    pub column: usize,
}

/// The kind of a lexical error.
#[derive(Debug, PartialEq, Eq, Clone, Copy)]
pub enum LexErrorKind {
    /// A character that cannot start any token.
    UnexpectedCharacter,
    /// End of input before the closing quote of a string literal.
    UnterminatedString,
    /// A backslash followed by no recognized escape sequence.
    InvalidEscape,
    /// A `\uXXXX` high surrogate without an immediately following low
    /// surrogate, or a low surrogate standing alone.
    UnpairedSurrogate,
    /// Number-like text that does not form a valid number literal.
    MalformedNumber,
}

/// A lexical error at a 1-indexed source position.
#[derive(Debug, PartialEq, Eq, Clone, Copy)]
pub struct LexError {
    /// What went wrong.
    pub kind: LexErrorKind,
    /// The 1-indexed line of the offending position.
    pub line: usize,
    /// The 1-indexed column of the offending position.
    pub column: usize,
}

} // verus!
