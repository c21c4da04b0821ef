//! Laws of the lexical grammar: every documented escape in a string
//! literal decodes to its single character, and any other character after a
//! backslash is a lexical error.
use vstd::prelude::*;

use crate::chars::is_digit;
use crate::chars::is_hex_digit;
use crate::chars::is_number_char;
use crate::chars::hex_val;
use crate::lex::digits_end;
use crate::lex::number_run_end;
use crate::lex::valid_number;
use crate::lex::Cursor;
use crate::lex::EscScan;
use crate::lex::Scan;
use crate::lex::StrScan;
use crate::lex::adv;
use crate::lex::adv_n;
use crate::lex::scan_escape;
use crate::lex::scan_string;
use crate::lex::scan_token;
use crate::lex::simple_escape;
use crate::lex::simple_escape_char;
use crate::lex::skip_ws;
use crate::doc::DocRes;
use crate::doc::doc_of;
use crate::machine::init_pstate;
use crate::render::esc_char;
use crate::render::esc_from;
use crate::render::gcompact;
use crate::render::quoted;
use crate::value::GJson;
use crate::token::GTokKind;
use crate::token::LexErrorKind;

verus! {

/// A hexadecimal digit character has the value it was made from.
proof fn lemma_hex_digit_char_val(d: int)
    requires
        0 <= d < 16,
    ensures
        is_hex_digit(crate::chars::hex_digit_char(d)),
        hex_val(crate::chars::hex_digit_char(d)) == d,
{
}

/// For every escape `e` of the documented simple set (`" \ / b f n r t`),
/// tokenizing the four characters `"\e"` yields a string token whose text
/// is exactly the single character the escape stands for.
pub proof fn escape_tokenizes_to_its_char(e: char)
    requires
        simple_escape(e),
    ensures
        scan_token(seq!['"', '\\', e, '"'], Cursor { pos: 0, line: 1, col: 1 }) == (Scan::Tok {
            kind: GTokKind::GStr(seq![simple_escape_char(e)]),
            line: 1,
            col: 1,
            after: Cursor { pos: 4, line: 1, col: 5 },
        }),
{
    let s = seq!['"', '\\', e, '"'];
    let c0 = Cursor { pos: 0, line: 1, col: 1 };
    assert(s[0] == '"' && s[1] == '\\' && s[2] == e && s[3] == '"');
    assert(skip_ws(s, c0) == c0);
    let c1 = Cursor { pos: 1, line: 1, col: 2 };
    assert(scan_escape(s, c1) == (EscScan::EDone {
        ch: simple_escape_char(e),
        after: Cursor { pos: 3, line: 1, col: 4 },
    }));
    assert(scan_string(s, Cursor { pos: 3, line: 1, col: 4 }) == (StrScan::SDone {
        text: Seq::<char>::empty(),
        after: Cursor { pos: 4, line: 1, col: 5 },
    }));
    assert(seq![simple_escape_char(e)] + Seq::<char>::empty() =~= seq![simple_escape_char(e)]);
    assert(scan_string(s, c1) == (StrScan::SDone {
        text: seq![simple_escape_char(e)],
        after: Cursor { pos: 4, line: 1, col: 5 },
    }));
}

/// For every character `x` that is neither a documented simple escape nor
/// `u`, tokenizing `"\x"` fails with an invalid-escape lexical error at the
/// backslash.
pub proof fn other_escape_is_lexical_error(x: char)
    requires
        !simple_escape(x),
        x != 'u',
    ensures
        scan_token(seq!['"', '\\', x, '"'], Cursor { pos: 0, line: 1, col: 1 }) == (Scan::Fail {
            kind: LexErrorKind::InvalidEscape,
            at: Cursor { pos: 1, line: 1, col: 2 },
        }),
{
    let s = seq!['"', '\\', x, '"'];
    let c0 = Cursor { pos: 0, line: 1, col: 1 };
    assert(s[0] == '"' && s[1] == '\\' && s[2] == x && s[3] == '"');
    assert(skip_ws(s, c0) == c0);
    let c1 = Cursor { pos: 1, line: 1, col: 2 };
    assert(scan_escape(s, c1) == (EscScan::EFail { kind: LexErrorKind::InvalidEscape, at: c1 }));
    assert(scan_string(s, c1) == (StrScan::SFail {
        kind: LexErrorKind::InvalidEscape,
        at: c1,
    }));
}

/// For every `\uXXXX` escape of four hexadecimal digits whose value is not
/// a surrogate code unit, tokenizing `"\uXXXX"` yields a string token whose
/// text is exactly the character with that code point.
pub proof fn unicode_escape_tokenizes_to_its_char(h0: char, h1: char, h2: char, h3: char)
    requires
        is_hex_digit(h0),
        is_hex_digit(h1),
        is_hex_digit(h2),
        is_hex_digit(h3),
        !(0xD800 <= hex_val(h0) * 0x1000 + hex_val(h1) * 0x100 + hex_val(h2) * 0x10 + hex_val(h3)
            < 0xE000),
    ensures
        ({
            let v = hex_val(h0) * 0x1000 + hex_val(h1) * 0x100 + hex_val(h2) * 0x10 + hex_val(h3);
            scan_token(
                seq!['"', '\\', 'u', h0, h1, h2, h3, '"'],
                Cursor { pos: 0, line: 1, col: 1 },
            ) == (Scan::Tok {
                kind: GTokKind::GStr(seq![(v as u32) as char]),
                line: 1,
                col: 1,
                after: Cursor { pos: 8, line: 1, col: 9 },
            })
        }),
{
    let s = seq!['"', '\\', 'u', h0, h1, h2, h3, '"'];
    let c0 = Cursor { pos: 0, line: 1, col: 1 };
    let v = hex_val(h0) * 0x1000 + hex_val(h1) * 0x100 + hex_val(h2) * 0x10 + hex_val(h3);
    assert(s[0] == '"' && s[1] == '\\' && s[2] == 'u');
    assert(s[3] == h0 && s[4] == h1 && s[5] == h2 && s[6] == h3 && s[7] == '"');
    assert(skip_ws(s, c0) == c0);
    let c1 = Cursor { pos: 1, line: 1, col: 2 };
    assert(!simple_escape('u'));
    assert(0 <= v < 0x10000);
    assert(scan_escape(s, c1) == (EscScan::EDone {
        ch: (v as u32) as char,
        after: Cursor { pos: 7, line: 1, col: 8 },
    }));
    assert(scan_string(s, Cursor { pos: 7, line: 1, col: 8 }) == (StrScan::SDone {
        text: Seq::<char>::empty(),
        after: Cursor { pos: 8, line: 1, col: 9 },
    }));
    assert(seq![(v as u32) as char] + Seq::<char>::empty() =~= seq![(v as u32) as char]);
    assert(scan_string(s, c1) == (StrScan::SDone {
        text: seq![(v as u32) as char],
        after: Cursor { pos: 8, line: 1, col: 9 },
    }));
}


/// Scanning the escaped rendering of the characters of `s` from `i` on,
/// followed by a closing quote, decodes those characters back and stops
/// right after the quote. The rendering contains no raw newline, so the
/// cursor moves along one line.
#[verifier::rlimit(100)]
#[verifier::spinoff_prover]
proof fn lemma_escaped_scans_back(u: Seq<char>, s: Seq<char>, i: int, c: Cursor)
    requires
        0 <= i <= s.len(),
        0 <= c.pos,
        c.pos + esc_from(s, i).len() + 1 <= u.len(),
        u.subrange(c.pos, c.pos + esc_from(s, i).len() + 1) == esc_from(s, i) + seq!['"'],
    ensures
        scan_string(u, c) == (StrScan::SDone {
            text: s.subrange(i, s.len() as int),
            after: adv_n(c, esc_from(s, i).len() + 1 as int),
        }),
    decreases s.len() - i,
{
    broadcast use vstd::utf8::char_u32_cast;

    let body = esc_from(s, i);
    let win = u.subrange(c.pos, c.pos + body.len() + 1);
    if i == s.len() {
        assert(u[c.pos] == win[0]);
        assert(u[c.pos] == '"');
        assert(s.subrange(i, s.len() as int) =~= Seq::<char>::empty());
    } else {
        let x = s[i];
        let e = esc_char(x);
        let rest = esc_from(s, i + 1);
        assert(body == e + rest);
        assert forall|k: int| 0 <= k < e.len() implies u[c.pos + k] == #[trigger] e[k] by {
            assert(win[k] == u[c.pos + k]);
            assert(win[k] == (e + rest)[k]);
        }
        let c2 = adv_n(c, e.len() as int);
        assert(u.subrange(c2.pos, c2.pos + rest.len() + 1) =~= rest + seq!['"']) by {
            assert forall|k: int|
                0 <= k < rest.len() + 1 implies #[trigger] u.subrange(
                c2.pos,
                c2.pos + rest.len() + 1,
            )[k] == (rest + seq!['"'])[k] by {
                assert(win[e.len() + k] == u[c.pos + e.len() + k]);
                assert(win[e.len() + k] == (body + seq!['"'])[e.len() + k]);
            }
        }
        lemma_escaped_scans_back(u, s, i + 1, c2);
        if e.len() == 1 {
            assert(e[0] == x);
            assert(u[c.pos] == x);
            assert(x != '"' && x != '\\' && x != '\n');
            assert(adv(c, u[c.pos]) == c2);
        } else if e.len() == 2 {
            assert(u[c.pos] == '\\');
            assert(simple_escape(u[c.pos + 1]));
            assert(simple_escape_char(u[c.pos + 1]) == x);
            assert(scan_escape(u, c) == (EscScan::EDone { ch: x, after: c2 }));
        } else {
            assert(e.len() == 6);
            assert(u[c.pos] == '\\' && u[c.pos + 1] == 'u');
            assert(u[c.pos + 2] == '0' && u[c.pos + 3] == '0');
            let hi = (x as u32) as int / 16;
            let lo = (x as u32) as int % 16;
            lemma_hex_digit_char_val(hi);
            lemma_hex_digit_char_val(lo);
            assert(u[c.pos + 4] == crate::chars::hex_digit_char(hi));
            assert(u[c.pos + 5] == crate::chars::hex_digit_char(lo));
            assert(crate::lex::hex4_at(u, c.pos + 2));
            assert(crate::lex::hex4_val(u, c.pos + 2) == x as u32);
            assert((x as u32) < 0x20);
            vstd::utf8::char_u32_cast(x, x as u32);
            assert((x as u32) as char == x);
            assert(scan_escape(u, c) == (EscScan::EDone { ch: x, after: c2 }));
        }
        assert(scan_string(u, c) == (StrScan::SDone {
            text: seq![x] + s.subrange(i + 1, s.len() as int),
            after: adv_n(c2, rest.len() + 1 as int),
        }));
        assert(seq![x] + s.subrange(i + 1, s.len() as int) =~= s.subrange(i, s.len() as int));
        assert(adv_n(c2, rest.len() + 1 as int) == adv_n(c, body.len() + 1 as int));
    }
}

/// Tokenizing the quoted, escaped rendering of any string yields a string
/// token holding exactly that string: the serializer's escaping and the
/// tokenizer's decoding are inverse.
pub proof fn string_rendering_tokenizes_back(s: Seq<char>)
    ensures
        scan_token(quoted(s), Cursor { pos: 0, line: 1, col: 1 }) == (Scan::Tok {
            kind: GTokKind::GStr(s),
            line: 1,
            col: 1,
            after: adv_n(Cursor { pos: 0, line: 1, col: 1 }, quoted(s).len() as int),
        }),
{
    let u = quoted(s);
    let c0 = Cursor { pos: 0, line: 1, col: 1 };
    assert(u[0] == '"');
    assert(skip_ws(u, c0) == c0);
    let c1 = Cursor { pos: 1, line: 1, col: 2 };
    assert(u.subrange(1, esc_from(s, 0).len() + 2 as int) =~= esc_from(s, 0) + seq!['"']);
    lemma_escaped_scans_back(u, s, 0, c1);
    assert(s.subrange(0, s.len() as int) =~= s);
}


/// Parsing the compact rendering of any scalar document (a null, a
/// boolean, a string, or a valid number standing alone) materializes
/// exactly that value: the round trip holds for every such value.
pub proof fn scalar_document_round_trips(v: GJson)
    requires
        v is GNull || v is GBool || v is GStr || (v is GNum && valid_number(v->GNum_0)),
    ensures
        doc_of(gcompact(v)) == DocRes::DOk(v),
{
    let u = gcompact(v);
    let c0 = Cursor { pos: 0, line: 1, col: 1 };
    match v {
        GJson::GNull => {
            assert(u =~= seq!['n', 'u', 'l', 'l']);
            assert(skip_ws(u, c0) == c0);
            assert(crate::lex::word_run_end(u, 4) == 4);
            assert(crate::lex::word_run_end(u, 3) == 4);
            assert(crate::lex::word_run_end(u, 2) == 4);
            assert(crate::lex::word_run_end(u, 1) == 4);
            assert(crate::lex::word_run_end(u, 0) == 4);
            assert(u.subrange(0, 4) =~= seq!['n', 'u', 'l', 'l']);
            assert(u.subrange(0, 4) != seq!['t', 'r', 'u', 'e']);
            assert(scan_token(u, c0) == (Scan::Tok {
                kind: GTokKind::GNull,
                line: 1,
                col: 1,
                after: Cursor { pos: 4, line: 1, col: 5 },
            }));
        },
        GJson::GBool(b) => {
            if b {
                assert(u =~= seq!['t', 'r', 'u', 'e']);
                assert(skip_ws(u, c0) == c0);
                assert(crate::lex::word_run_end(u, 4) == 4);
                assert(crate::lex::word_run_end(u, 3) == 4);
                assert(crate::lex::word_run_end(u, 2) == 4);
                assert(crate::lex::word_run_end(u, 1) == 4);
                assert(crate::lex::word_run_end(u, 0) == 4);
                assert(u.subrange(0, 4) =~= seq!['t', 'r', 'u', 'e']);
                assert(scan_token(u, c0) == (Scan::Tok {
                    kind: GTokKind::GBool(true),
                    line: 1,
                    col: 1,
                    after: Cursor { pos: 4, line: 1, col: 5 },
                }));
            } else {
                assert(u =~= seq!['f', 'a', 'l', 's', 'e']);
                assert(skip_ws(u, c0) == c0);
                assert(crate::lex::word_run_end(u, 5) == 5);
                assert(crate::lex::word_run_end(u, 4) == 5);
                assert(crate::lex::word_run_end(u, 3) == 5);
                assert(crate::lex::word_run_end(u, 2) == 5);
                assert(crate::lex::word_run_end(u, 1) == 5);
                assert(crate::lex::word_run_end(u, 0) == 5);
                assert(u.subrange(0, 5) =~= seq!['f', 'a', 'l', 's', 'e']);
                assert(u.subrange(0, 5) != seq!['t', 'r', 'u', 'e']);
                assert(scan_token(u, c0) == (Scan::Tok {
                    kind: GTokKind::GBool(false),
                    line: 1,
                    col: 1,
                    after: Cursor { pos: 5, line: 1, col: 6 },
                }));
            }
        },
        GJson::GNum(t) => {
            number_text_tokenizes_back(t);
        },
        _ => {
            let s = v->GStr_0;
            string_rendering_tokenizes_back(s);
        },
    }
    let scan = scan_token(u, c0);
    let k = scan->Tok_kind;
    let after = scan->Tok_after;
    assert(after.pos == u.len());
    let ev = match k {
        GTokKind::GNull => crate::event::GEvent::GNull,
        GTokKind::GBool(b) => crate::event::GEvent::GBool(b),
        GTokKind::GNum(t) => crate::event::GEvent::GNum(t),
        _ => crate::event::GEvent::GStr(k->GStr_0),
    };
    let done_state = crate::machine::PState { stack: Seq::empty(), done: true };
    assert(crate::machine::pstep(init_pstate(), k, 1, 1) == crate::machine::PStep::Emit(
        ev,
        done_state,
    ));
    assert(crate::machine::next_event(u, c0, init_pstate())
        == (crate::machine::EvStep::Next { ev, cur: after, st: done_state }));
    assert(skip_ws(u, after) == after);
    assert(scan_token(u, after) == (Scan::End { at: after }));
    assert(crate::machine::next_event(u, after, done_state) == (crate::machine::EvStep::Fin {
        cur: after,
    }));
    assert(crate::doc::attach(Seq::empty(), v) == crate::doc::Attach::ADone(v));
    assert(crate::doc::run_doc(u, after, done_state, Seq::empty(), Option::Some(v))
        == DocRes::DOk(v));
}


/// Every character of a digit run is a digit.
proof fn lemma_digits_run_chars(t: Seq<char>, i: int)
    requires
        0 <= i,
    ensures
        forall|k: int| i <= k < digits_end(t, i) ==> is_digit(#[trigger] t[k]),
    decreases t.len() - i,
{
    if i < t.len() && is_digit(t[i]) {
        lemma_digits_run_chars(t, i + 1);
    }
}

/// A text of number characters is one maximal run.
proof fn lemma_number_run_covers(t: Seq<char>, i: int)
    requires
        0 <= i <= t.len(),
        forall|k: int| i <= k < t.len() ==> is_number_char(#[trigger] t[k]),
    ensures
        number_run_end(t, i) == t.len(),
    decreases t.len() - i,
{
    if i < t.len() {
        lemma_number_run_covers(t, i + 1);
    }
}

/// Every character of a valid number literal is a number character, and
/// its first character is a minus sign or a digit.
proof fn lemma_valid_number_chars(t: Seq<char>)
    requires
        valid_number(t),
    ensures
        forall|k: int| 0 <= k < t.len() ==> is_number_char(#[trigger] t[k]),
        t.len() > 0,
        t[0] == '-' || is_digit(t[0]),
{
    let b: int = if t.len() > 0 && t[0] == '-' {
        1
    } else {
        0
    };
    let i1 = crate::lex::after_int(t, b)->0;
    let i2 = crate::lex::after_frac(t, i1)->0;
    let i3 = crate::lex::after_exp(t, i2)->0;
    lemma_digits_run_chars(t, b);
    if i1 < t.len() && t[i1] == '.' {
        lemma_digits_run_chars(t, i1 + 1);
    }
    if i2 < t.len() && (t[i2] == 'e' || t[i2] == 'E') {
        if i2 + 1 < t.len() && (t[i2 + 1] == '+' || t[i2 + 1] == '-') {
            lemma_digits_run_chars(t, i2 + 2);
        } else {
            lemma_digits_run_chars(t, i2 + 1);
        }
    }
}

/// Tokenizing any valid number literal standing alone yields a number
/// token holding exactly its text.
pub proof fn number_text_tokenizes_back(t: Seq<char>)
    requires
        valid_number(t),
    ensures
        scan_token(t, Cursor { pos: 0, line: 1, col: 1 }) == (Scan::Tok {
            kind: GTokKind::GNum(t),
            line: 1,
            col: 1,
            after: adv_n(Cursor { pos: 0, line: 1, col: 1 }, t.len() as int),
        }),
{
    let c0 = Cursor { pos: 0, line: 1, col: 1 };
    lemma_valid_number_chars(t);
    assert(!crate::chars::is_ws(t[0]));
    assert(skip_ws(t, c0) == c0);
    lemma_number_run_covers(t, 0);
    assert(t.subrange(0, t.len() as int) =~= t);
}


/// The compact rendering is stable for scalar documents: rendering the
/// value materialized from a scalar document's rendering gives the same
/// text again.
pub proof fn scalar_rendering_is_stable(v: GJson)
    requires
        v is GNull || v is GBool || v is GStr || (v is GNum && valid_number(v->GNum_0)),
    ensures
        doc_of(gcompact(v)) matches DocRes::DOk(w) && gcompact(w) == gcompact(v),
{
    scalar_document_round_trips(v);
}

} // verus!
