//! The streaming parser's state machine, as spec functions: the context
//! stack that replaces call-stack recursion, the transition taken on each
//! token, and the pump that scans tokens until one event (or an error) is
//! due. The executable parser is proved to follow these functions exactly.
use vstd::prelude::*;

use crate::event::GEvent;
use crate::event::GPErr;
use crate::lex::Cursor;
use crate::lex::Scan;
use crate::lex::lemma_scan_token_bounds;
use crate::lex::scan_token;
use crate::token::GTokKind;

verus! {

/// What the innermost open container expects next. The states after a
/// comma (`ArrayAwaitingValue`, `ObjectAwaitingKey`) differ from the states
/// right after the opening bracket: a close is legal after `[` or `{` and
/// after a completed value, never right after a comma.
#[derive(Debug, PartialEq, Eq, Clone, Copy)]
pub enum Ctx {
    /// Right after `[`: a value or `]`.
    ArrayAwaitingValueOrEnd,
    /// Right after a comma in an array: a value only.
    ArrayAwaitingValue,
    /// After a completed array element: `,` or `]`.
    ArrayAwaitingCommaOrEnd,
    /// Right after `{`: a key or `}`.
    ObjectAwaitingKeyOrEnd,
    /// Right after a comma in an object: a key only.
    ObjectAwaitingKey,
    /// After a key: `:`.
    ObjectAwaitingColon,
    /// After `:`: a value only.
    ObjectAwaitingValue,
    /// After a completed member value: `,` or `}`.
    ObjectAwaitingCommaOrEnd,
}

/// The parser's whole state: the context stack (depth equals nesting
/// depth) and whether a top-level value has already been completed.
pub ghost struct PState {
    pub stack: Seq<Ctx>,
    pub done: bool,
}

/// The initial state: no open container, no value completed yet.
pub open spec fn init_pstate() -> PState {
    PState { stack: Seq::empty(), done: false }
}

/// A value is expected here: at the top level before any value, right
/// inside an array, after an array comma, or after an object colon.
pub open spec fn value_pos(st: PState) -> bool {
    if st.stack.len() == 0 {
        !st.done
    } else {
        let l = st.stack.last();
        l == Ctx::ArrayAwaitingValueOrEnd || l == Ctx::ArrayAwaitingValue || l
            == Ctx::ObjectAwaitingValue
    }
}

/// An object key is expected here.
pub open spec fn key_pos(st: PState) -> bool {
    st.stack.len() > 0 && (st.stack.last() == Ctx::ObjectAwaitingKeyOrEnd || st.stack.last()
        == Ctx::ObjectAwaitingKey)
}

/// The state after a value has been completed at the current level: the
/// top level is done, an array frame awaits a comma or the end, an object
/// frame awaits a comma or the end.
pub open spec fn after_value(st: PState) -> PState {
    if st.stack.len() == 0 {
        PState { stack: st.stack, done: true }
    } else {
        let l = st.stack.last();
        let l2 = if l == Ctx::ArrayAwaitingValueOrEnd || l == Ctx::ArrayAwaitingValue {
            Ctx::ArrayAwaitingCommaOrEnd
        } else if l == Ctx::ObjectAwaitingValue {
            Ctx::ObjectAwaitingCommaOrEnd
        } else {
            l
        };
        PState { stack: st.stack.update(st.stack.len() - 1, l2), done: st.done }
    }
}

/// The human-readable description of what the grammar expects at this
/// state, carried by an `UnexpectedToken` error.
pub open spec fn expected_at(st: PState) -> Seq<char> {
    if st.stack.len() == 0 {
        "a value"@
    } else {
        match st.stack.last() {
            Ctx::ArrayAwaitingValueOrEnd => "a value or ']'"@,
            Ctx::ArrayAwaitingValue => "a value"@,
            Ctx::ArrayAwaitingCommaOrEnd => "',' or ']'"@,
            Ctx::ObjectAwaitingKeyOrEnd => "a key or '}'"@,
            Ctx::ObjectAwaitingKey => "a key"@,
            Ctx::ObjectAwaitingColon => "':'"@,
            Ctx::ObjectAwaitingValue => "a value"@,
            Ctx::ObjectAwaitingCommaOrEnd => "',' or '}'"@,
        }
    }
}

/// What one token does to the parser: an event and a new state, a silent
/// state change (`:` and `,` emit nothing), or a structural error.
pub enum PStep {
    Emit(GEvent, PState),
    Quiet(PState),
    Reject(GPErr),
}

/// The rejection for a token that does not fit the current position.
pub open spec fn reject_here(st: PState, line: int, col: int) -> PStep {
    PStep::Reject(GPErr::GUnexpectedToken { line, col, expected: expected_at(st) })
}

/// The transition the parser takes on one token at position `line`/`col`.
pub open spec fn pstep(st: PState, k: GTokKind, line: int, col: int) -> PStep {
    if st.stack.len() == 0 && st.done {
        PStep::Reject(GPErr::GTrailing { line, col })
    } else {
        match k {
            GTokKind::GLBrace => if value_pos(st) {
                PStep::Emit(
                    GEvent::GStartObj,
                    PState { stack: st.stack.push(Ctx::ObjectAwaitingKeyOrEnd), done: st.done },
                )
            } else {
                reject_here(st, line, col)
            },
            GTokKind::GLBracket => if value_pos(st) {
                PStep::Emit(
                    GEvent::GStartArr,
                    PState { stack: st.stack.push(Ctx::ArrayAwaitingValueOrEnd), done: st.done },
                )
            } else {
                reject_here(st, line, col)
            },
            GTokKind::GRBrace => if st.stack.len() > 0 && (st.stack.last()
                == Ctx::ObjectAwaitingKeyOrEnd || st.stack.last()
                == Ctx::ObjectAwaitingCommaOrEnd) {
                PStep::Emit(
                    GEvent::GEndObj,
                    after_value(PState { stack: st.stack.drop_last(), done: st.done }),
                )
            } else {
                reject_here(st, line, col)
            },
            GTokKind::GRBracket => if st.stack.len() > 0 && (st.stack.last()
                == Ctx::ArrayAwaitingValueOrEnd || st.stack.last()
                == Ctx::ArrayAwaitingCommaOrEnd) {
                PStep::Emit(
                    GEvent::GEndArr,
                    after_value(PState { stack: st.stack.drop_last(), done: st.done }),
                )
            } else {
                reject_here(st, line, col)
            },
            GTokKind::GColon => if st.stack.len() > 0 && st.stack.last()
                == Ctx::ObjectAwaitingColon {
                PStep::Quiet(
                    PState {
                        stack: st.stack.update(st.stack.len() - 1, Ctx::ObjectAwaitingValue),
                        done: st.done,
                    },
                )
            } else {
                reject_here(st, line, col)
            },
            GTokKind::GComma => if st.stack.len() > 0 && st.stack.last()
                == Ctx::ArrayAwaitingCommaOrEnd {
                PStep::Quiet(
                    PState {
                        stack: st.stack.update(st.stack.len() - 1, Ctx::ArrayAwaitingValue),
                        done: st.done,
                    },
                )
            } else if st.stack.len() > 0 && st.stack.last() == Ctx::ObjectAwaitingCommaOrEnd {
                PStep::Quiet(
                    PState {
                        stack: st.stack.update(st.stack.len() - 1, Ctx::ObjectAwaitingKey),
                        done: st.done,
                    },
                )
            } else {
                reject_here(st, line, col)
            },
            GTokKind::GStr(t) => if key_pos(st) {
                PStep::Emit(
                    GEvent::GKey(t),
                    PState {
                        stack: st.stack.update(st.stack.len() - 1, Ctx::ObjectAwaitingColon),
                        done: st.done,
                    },
                )
            } else if value_pos(st) {
                PStep::Emit(GEvent::GStr(t), after_value(st))
            } else {
                reject_here(st, line, col)
            },
            GTokKind::GNum(t) => if value_pos(st) {
                PStep::Emit(GEvent::GNum(t), after_value(st))
            } else {
                reject_here(st, line, col)
            },
            GTokKind::GBool(b) => if value_pos(st) {
                PStep::Emit(GEvent::GBool(b), after_value(st))
            } else {
                reject_here(st, line, col)
            },
            GTokKind::GNull => if value_pos(st) {
                PStep::Emit(GEvent::GNull, after_value(st))
            } else {
                reject_here(st, line, col)
            },
        }
    }
}

/// What one advance of the event sequence yields: the next event with the
/// cursor and state after it, the clean end of the sequence, or the error
/// that ends it.
pub enum EvStep {
    Next { ev: GEvent, cur: Cursor, st: PState },
    Fin { cur: Cursor },
    Stop { err: GPErr },
}

/// Scans tokens from the cursor until one event is due: silent tokens
/// (`:`, `,`) only change state. The end of input is clean exactly when the
/// stack is empty and a top-level value has been completed.
pub open spec fn next_event(s: Seq<char>, cur: Cursor, st: PState) -> EvStep
    decreases s.len() - cur.pos when cur.pos >= 0 via next_event_decreases
{
    match scan_token(s, cur) {
        Scan::End { at } => if st.stack.len() == 0 && st.done {
            EvStep::Fin { cur: at }
        } else {
            EvStep::Stop { err: GPErr::GUnexpectedEnd { line: at.line, col: at.col } }
        },
        Scan::Fail { kind, at } => EvStep::Stop {
            err: GPErr::GLex { kind, line: at.line, col: at.col },
        },
        Scan::Tok { kind, line, col, after } => match pstep(st, kind, line, col) {
            PStep::Emit(ev, st2) => EvStep::Next { ev, cur: after, st: st2 },
            PStep::Quiet(st2) => next_event(s, after, st2),
            PStep::Reject(err) => EvStep::Stop { err },
        },
    }
}

#[via_fn]
proof fn next_event_decreases(s: Seq<char>, cur: Cursor, st: PState) {
    lemma_scan_token_bounds(s, cur);
}

/// An advance of the event sequence never rewinds the cursor; producing an
/// event moves it strictly forward.
pub proof fn lemma_next_event_bounds(s: Seq<char>, cur: Cursor, st: PState)
    requires
        cur.pos >= 0,
    ensures
        next_event(s, cur, st) matches EvStep::Next { cur: c2, .. } ==> cur.pos < c2.pos
            <= s.len() && c2.pos >= 0,
    decreases s.len() - cur.pos,
{
    lemma_scan_token_bounds(s, cur);
    match scan_token(s, cur) {
        Scan::Tok { kind, line, col, after } => match pstep(st, kind, line, col) {
            PStep::Quiet(st2) => {
                lemma_next_event_bounds(s, after, st2);
            },
            _ => {},
        },
        _ => {},
    }
}

} // verus!
