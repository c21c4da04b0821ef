//! A verified JSON library: a tokenizer that scans text into positioned
//! tokens, a pull-based streaming parser that turns tokens into structural
//! parse events using an explicit context stack, materialization of an event
//! stream into a [`value::JsonValue`] tree, and a serializer that renders a
//! value back into compact or indented JSON text.
use vstd::prelude::*;

pub mod chars;
pub mod doc;
pub mod event;
pub mod machine;
pub mod lex;
pub mod parser;
pub mod props;
pub mod render;
pub mod token;
pub mod tokenizer;
pub mod value;


pub use doc::parse_document;
pub use event::ParseError;
pub use event::ParseEvent;
pub use event::ScalarValue;
pub use parser::StreamingParser;
pub use parser::parse_streaming;
pub use token::LexError;
pub use token::LexErrorKind;
pub use token::Token;
pub use token::TokenType;
pub use tokenizer::Tokenizer;
pub use tokenizer::skip_whitespace;
pub use value::JsonValue;
