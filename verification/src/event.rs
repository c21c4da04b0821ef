//! Parse events: the streaming parser's output units, in document order,
//! and the structural errors that end an event sequence.
use vstd::prelude::*;

use crate::token::LexError;
use crate::token::LexErrorKind;

verus! {

/// A scalar JSON value carried by a [`ParseEvent::Scalar`].
#[derive(Debug, PartialEq, Clone)]
pub enum ScalarValue {
    /// `null`.
    Null,
    /// `true` or `false`.
    Boolean(bool),
    /// A number, as its validated lexical text.
    Number(String),
    /// A string, with escapes already decoded.
    String(String),
}

/// One unit of structural parsing output. Events come in document order:
/// a `Key` always precedes the events of its value, and every `StartObject`
/// or `StartArray` is matched by its end event at the same nesting depth,
/// unless an error terminates the sequence first.
#[derive(Debug, PartialEq, Clone)]
pub enum ParseEvent {
    /// `{` opened an object.
    StartObject,
    /// An object key.
    Key(String),
    /// `}` closed the innermost object.
    EndObject,
    /// `[` opened an array.
    StartArray,
    /// `]` closed the innermost array.
    EndArray,
    /// A scalar value.
    Scalar(ScalarValue),
}

/// A structural parse error; the sequence ends with it.
#[derive(Debug, PartialEq, Clone)]
pub enum ParseError {
    /// The next token does not satisfy the current grammar position;
    /// `expected` describes the token set that would.
    UnexpectedToken { line: usize, column: usize, expected: String },
    /// Input ended with open containers, or before any value.
    UnexpectedEndOfInput { line: usize, column: usize },
    /// A second top-level value (non-whitespace content after the first).
    TrailingData { line: usize, column: usize },
    /// A lexical error ended the token sequence.
    Lex(LexError),
}

/// The mathematical counterpart of [`ParseEvent`], over `Seq`.
pub enum GEvent {
    GStartObj,
    GKey(Seq<char>),
    GEndObj,
    GStartArr,
    GEndArr,
    GNull,
    GBool(bool),
    GNum(Seq<char>),
    GStr(Seq<char>),
}

/// The mathematical counterpart of [`ParseError`].
pub enum GPErr {
    GUnexpectedToken { line: int, col: int, expected: Seq<char> },
    GUnexpectedEnd { line: int, col: int },
    GTrailing { line: int, col: int },
    GLex { kind: LexErrorKind, line: int, col: int },
}

impl ParseEvent {
    /// The mathematical event this `ParseEvent` denotes.
    pub open spec fn gview(&self) -> GEvent {
        match self {
            ParseEvent::StartObject => GEvent::GStartObj,
            ParseEvent::Key(k) => GEvent::GKey(k@),
            ParseEvent::EndObject => GEvent::GEndObj,
            ParseEvent::StartArray => GEvent::GStartArr,
            ParseEvent::EndArray => GEvent::GEndArr,
            ParseEvent::Scalar(s) => match s {
                ScalarValue::Null => GEvent::GNull,
                ScalarValue::Boolean(b) => GEvent::GBool(*b),
                ScalarValue::Number(t) => GEvent::GNum(t@),
                ScalarValue::String(t) => GEvent::GStr(t@),
            },
        }
    }
}

impl ParseError {
    /// The mathematical error this `ParseError` denotes.
    pub open spec fn gview(&self) -> GPErr {
        match self {
            ParseError::UnexpectedToken { line, column, expected } => GPErr::GUnexpectedToken {
                line: *line as int,
                col: *column as int,
                expected: expected@,
            },
            ParseError::UnexpectedEndOfInput { line, column } => GPErr::GUnexpectedEnd {
                line: *line as int,
                col: *column as int,
            },
            ParseError::TrailingData { line, column } => GPErr::GTrailing {
                line: *line as int,
                col: *column as int,
            },
            ParseError::Lex(e) => GPErr::GLex {
                kind: e.kind,
                line: e.line as int,
                col: e.column as int,
            },
        }
    }
}

} // verus!
