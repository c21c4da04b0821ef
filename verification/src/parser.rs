//! The streaming parser: consumes the tokenizer's output and yields a lazy,
//! finite sequence of structural parse events, using an explicit stack of
//! nesting contexts rather than call-stack recursion. Each produced element
//! is proved to be exactly what [`crate::machine::next_event`] prescribes at
//! the current cursor and state.
use vstd::prelude::*;

use crate::chars::str_to_chars;
use crate::event::GPErr;
use crate::event::ParseError;
use crate::event::ParseEvent;
use crate::event::ScalarValue;
use crate::lex::Cursor;
use crate::lex::lemma_scan_token_bounds;
use crate::machine::Ctx;
use crate::machine::EvStep;
use crate::machine::PState;
use crate::machine::after_value;
use crate::machine::expected_at;
use crate::machine::init_pstate;
use crate::machine::key_pos;
use crate::machine::next_event;
use crate::machine::value_pos;
use crate::token::TokenType;
use crate::tokenizer::Tokenizer;
use vstd::pervasive::VecAdditionalExecFns;
use vstd::string::StringExecFns;

verus! {

/// The pull-based streaming parser over an input text. After the clean end
/// of the event sequence, or after an error, no further element is produced.
pub struct StreamingParser {
    tok: Tokenizer,
    stack: Vec<Ctx>,
    done: bool,
    finished: bool,
}

/// A fresh streaming parser over the characters of `input`, at offset 0,
/// line 1, column 1. The length bound is a machine limit: positions and
/// 1-indexed columns must fit the machine word.
pub fn parse_streaming(input: &str) -> (p: StreamingParser)
    requires
        input@.len() < usize::MAX,
    ensures
        p.wf(),
        p.inp() == input@,
        p.cursor() == (Cursor { pos: 0, line: 1, col: 1 }),
        p.pstate() == init_pstate(),
        !p.is_finished(),
{
    StreamingParser {
        tok: Tokenizer::new(str_to_chars(input)),
        stack: Vec::new(),
        done: false,
        finished: false,
    }
}

impl StreamingParser {
    /// The characters being parsed.
    pub closed spec fn inp(&self) -> Seq<char> {
        self.tok.inp()
    }

    /// The tokenizer's current cursor.
    pub closed spec fn cursor(&self) -> Cursor {
        self.tok.cursor()
    }

    /// The current machine state: context stack and top-level flag.
    pub closed spec fn pstate(&self) -> PState {
        PState { stack: self.stack@, done: self.done }
    }

    /// Whether the event sequence has ended (cleanly or with an error).
    pub closed spec fn is_finished(&self) -> bool {
        self.finished
    }

    /// The parser is in a usable state.
    pub closed spec fn wf(&self) -> bool {
        &&& self.tok.wf()
        &&& (!self.finished ==> !self.tok.has_failed())
    }

    /// Whether a value is expected at the current position.
    fn at_value_pos(&self) -> (r: bool)
        ensures
            r == value_pos(self.pstate()),
    {
        if self.stack.len() == 0 {
            !self.done
        } else {
            let l = self.stack[self.stack.len() - 1];
            matches!(
                l,
                Ctx::ArrayAwaitingValueOrEnd | Ctx::ArrayAwaitingValue | Ctx::ObjectAwaitingValue
            )
        }
    }

    /// Whether an object key is expected at the current position.
    fn at_key_pos(&self) -> (r: bool)
        ensures
            r == key_pos(self.pstate()),
    {
        if self.stack.len() == 0 {
            false
        } else {
            let l = self.stack[self.stack.len() - 1];
            matches!(l, Ctx::ObjectAwaitingKeyOrEnd | Ctx::ObjectAwaitingKey)
        }
    }

    /// Records that a value has been completed at the current level.
    fn complete_value(&mut self)
        ensures
            final(self).pstate() == after_value(old(self).pstate()),
            final(self).inp() == old(self).inp(),
            final(self).cursor() == old(self).cursor(),
            final(self).is_finished() == old(self).is_finished(),
            final(self).wf() == old(self).wf(),
    {
        if self.stack.len() == 0 {
            self.done = true;
        } else {
            let i = self.stack.len() - 1;
            match self.stack[i] {
                Ctx::ArrayAwaitingValueOrEnd => self.stack.set(i, Ctx::ArrayAwaitingCommaOrEnd),
                Ctx::ArrayAwaitingValue => self.stack.set(i, Ctx::ArrayAwaitingCommaOrEnd),
                Ctx::ObjectAwaitingValue => self.stack.set(i, Ctx::ObjectAwaitingCommaOrEnd),
                _ => {},
            }
            proof {
                assert(final(self).pstate().stack =~= after_value(old(self).pstate()).stack);
            }
        }
    }

    /// Ends the sequence with an `UnexpectedToken` error describing what
    /// the grammar expects at the current state.
    fn reject(&mut self, line: usize, col: usize) -> (r: Option<Result<ParseEvent, ParseError>>)
        ensures
            final(self).inp() == old(self).inp(),
            final(self).cursor() == old(self).cursor(),
            old(self).wf() ==> final(self).wf(),
            final(self).is_finished(),
            r matches Some(Err(e)) && e.gview() == (GPErr::GUnexpectedToken {
                line: line as int,
                col: col as int,
                expected: expected_at(old(self).pstate()),
            }),
    {
        let msg: &str = if self.stack.len() == 0 {
            "a value"
        } else {
            match self.stack[self.stack.len() - 1] {
                Ctx::ArrayAwaitingValueOrEnd => "a value or ']'",
                Ctx::ArrayAwaitingValue => "a value",
                Ctx::ArrayAwaitingCommaOrEnd => "',' or ']'",
                Ctx::ObjectAwaitingKeyOrEnd => "a key or '}'",
                Ctx::ObjectAwaitingKey => "a key",
                Ctx::ObjectAwaitingColon => "':'",
                Ctx::ObjectAwaitingValue => "a value",
                Ctx::ObjectAwaitingCommaOrEnd => "',' or '}'",
            }
        };
        self.finished = true;
        Some(
            Err(
                ParseError::UnexpectedToken { line, column: col, expected: String::from_str(msg) },
            ),
        )
    }

    /// A usable parser's cursor lies within its input.
    pub proof fn lemma_wf_cursor(&self)
        requires
            self.wf(),
        ensures
            0 <= self.cursor().pos <= self.inp().len(),
    {
    }

    /// Produces the next parse event, the clean end of the sequence
    /// (`None`), or the error that ends it: exactly what the state machine
    /// prescribes at the current cursor and state. Each call performs only
    /// the scanning needed to determine one event.
    #[verifier::loop_isolation(false)]
    #[verifier::rlimit(100)]
    #[verifier::spinoff_prover]
    pub fn next_event(&mut self) -> (r: Option<Result<ParseEvent, ParseError>>)
        requires
            old(self).wf(),
        ensures
            final(self).wf(),
            final(self).inp() == old(self).inp(),
            old(self).is_finished() ==> r is None && final(self).is_finished(),
            !old(self).is_finished() ==> match next_event(
                old(self).inp(),
                old(self).cursor(),
                old(self).pstate(),
            ) {
                EvStep::Next { ev, cur, st } => {
                    &&& r matches Some(Ok(e)) && e.gview() == ev
                    &&& final(self).cursor() == cur
                    &&& final(self).pstate() == st
                    &&& !final(self).is_finished()
                },
                EvStep::Fin { cur } => r is None && final(self).is_finished(),
                EvStep::Stop { err } => {
                    &&& r matches Some(Err(e)) && e.gview() == err
                    &&& final(self).is_finished()
                },
            },
    {
        if self.finished {
            return None;
        }
        let ghost s = self.inp();
        let ghost cur0 = self.cursor();
        let ghost st0 = self.pstate();
        loop
            invariant
                self.wf(),
                !self.finished,
                self.inp() == s,
                next_event(s, cur0, st0) == next_event(s, self.cursor(), self.pstate()),
            decreases s.len() - self.cursor().pos,
        {
            let ghost cpre = self.cursor();
            let ghost stpre = self.pstate();
            proof {
                lemma_scan_token_bounds(s, cpre);
            }
            let t = self.tok.next_token();
            match t {
                None => {
                    if self.done && self.stack.len() == 0 {
                        self.finished = true;
                        return None;
                    } else {
                        let l = self.tok.line();
                        let c = self.tok.column();
                        self.finished = true;
                        return Some(Err(ParseError::UnexpectedEndOfInput { line: l, column: c }));
                    }
                },
                Some(Err(le)) => {
                    self.finished = true;
                    return Some(Err(ParseError::Lex(le)));
                },
                Some(Ok(token)) => {
                    let ghost k = token.kind.gview();
                    let line = token.line;
                    let col = token.column;
                    if self.stack.len() == 0 && self.done {
                        self.finished = true;
                        return Some(Err(ParseError::TrailingData { line, column: col }));
                    }
                    match token.kind {
                        TokenType::LeftBrace => {
                            if self.at_value_pos() {
                                self.stack.push(Ctx::ObjectAwaitingKeyOrEnd);
                                return Some(Ok(ParseEvent::StartObject));
                            } else {
                                return self.reject(line, col);
                            }
                        },
                        TokenType::LeftBracket => {
                            if self.at_value_pos() {
                                self.stack.push(Ctx::ArrayAwaitingValueOrEnd);
                                return Some(Ok(ParseEvent::StartArray));
                            } else {
                                return self.reject(line, col);
                            }
                        },
                        TokenType::RightBrace => {
                            let legal = self.stack.len() > 0 && matches!(
                                self.stack[self.stack.len() - 1],
                                Ctx::ObjectAwaitingKeyOrEnd | Ctx::ObjectAwaitingCommaOrEnd
                            );
                            if legal {
                                self.stack.pop();
                                self.complete_value();
                                return Some(Ok(ParseEvent::EndObject));
                            } else {
                                return self.reject(line, col);
                            }
                        },
                        TokenType::RightBracket => {
                            let legal = self.stack.len() > 0 && matches!(
                                self.stack[self.stack.len() - 1],
                                Ctx::ArrayAwaitingValueOrEnd | Ctx::ArrayAwaitingCommaOrEnd
                            );
                            if legal {
                                self.stack.pop();
                                self.complete_value();
                                return Some(Ok(ParseEvent::EndArray));
                            } else {
                                return self.reject(line, col);
                            }
                        },
                        TokenType::Colon => {
                            let legal = self.stack.len() > 0 && matches!(
                                self.stack[self.stack.len() - 1],
                                Ctx::ObjectAwaitingColon
                            );
                            if legal {
                                let i = self.stack.len() - 1;
                                self.stack.set(i, Ctx::ObjectAwaitingValue);
                            } else {
                                return self.reject(line, col);
                            }
                        },
                        TokenType::Comma => {
                            if self.stack.len() > 0 && matches!(
                                self.stack[self.stack.len() - 1],
                                Ctx::ArrayAwaitingCommaOrEnd
                            ) {
                                let i = self.stack.len() - 1;
                                self.stack.set(i, Ctx::ArrayAwaitingValue);
                            } else if self.stack.len() > 0 && matches!(
                                self.stack[self.stack.len() - 1],
                                Ctx::ObjectAwaitingCommaOrEnd
                            ) {
                                let i = self.stack.len() - 1;
                                self.stack.set(i, Ctx::ObjectAwaitingKey);
                            } else {
                                return self.reject(line, col);
                            }
                        },
                        TokenType::String(txt) => {
                            if self.at_key_pos() {
                                let i = self.stack.len() - 1;
                                self.stack.set(i, Ctx::ObjectAwaitingColon);
                                return Some(Ok(ParseEvent::Key(txt)));
                            } else if self.at_value_pos() {
                                self.complete_value();
                                return Some(Ok(ParseEvent::Scalar(ScalarValue::String(txt))));
                            } else {
                                return self.reject(line, col);
                            }
                        },
                        TokenType::Number(txt) => {
                            if self.at_value_pos() {
                                self.complete_value();
                                return Some(Ok(ParseEvent::Scalar(ScalarValue::Number(txt))));
                            } else {
                                return self.reject(line, col);
                            }
                        },
                        TokenType::Boolean(b) => {
                            if self.at_value_pos() {
                                self.complete_value();
                                return Some(Ok(ParseEvent::Scalar(ScalarValue::Boolean(b))));
                            } else {
                                return self.reject(line, col);
                            }
                        },
                        TokenType::Null => {
                            if self.at_value_pos() {
                                self.complete_value();
                                return Some(Ok(ParseEvent::Scalar(ScalarValue::Null)));
                            } else {
                                return self.reject(line, col);
                            }
                        },
                    }
                },
            }
        }
    }
}

} // verus!
