//! The lexical grammar, as spec functions: a cursor over the input
//! characters, whitespace skipping, string/escape scanning, the number
//! grammar, and the scan of one token. The executable tokenizer is proved to
//! follow these functions exactly.
use vstd::prelude::*;

use crate::chars::hex_val;
use crate::chars::is_digit;
use crate::chars::is_hex_digit;
use crate::chars::is_number_char;
use crate::chars::is_word_char;
use crate::chars::is_ws;
use crate::token::GTokKind;
use crate::token::LexErrorKind;

verus! {

/// A scanning position: character offset and 1-indexed line and column.
pub ghost struct Cursor {
    pub pos: int,
    pub line: int,
    pub col: int,
}

/// A cursor that fits the input: within bounds, 1-indexed counters that can
/// not outrun the offset, and an input whose positions fit the machine word.
pub open spec fn cur_wf(s: Seq<char>, c: Cursor) -> bool {
    &&& 0 <= c.pos <= s.len()
    &&& 1 <= c.line
    &&& 1 <= c.col
    &&& c.line + c.col <= c.pos + 2
    &&& s.len() < usize::MAX
}

/// The cursor after consuming one character: a newline starts the next line,
/// anything else moves one column.
pub open spec fn adv(c: Cursor, ch: char) -> Cursor {
    if ch == '\n' {
        Cursor { pos: c.pos + 1, line: c.line + 1, col: 1 }
    } else {
        Cursor { pos: c.pos + 1, line: c.line, col: c.col + 1 }
    }
}

/// The cursor after consuming `n` characters none of which is a newline.
pub open spec fn adv_n(c: Cursor, n: int) -> Cursor {
    Cursor { pos: c.pos + n, line: c.line, col: c.col + n }
}

/// The cursor at the first character that is not JSON whitespace.
pub open spec fn skip_ws(s: Seq<char>, c: Cursor) -> Cursor
    decreases s.len() - c.pos,
{
    if 0 <= c.pos < s.len() && is_ws(s[c.pos]) {
        skip_ws(s, adv(c, s[c.pos]))
    } else {
        c
    }
}

/// What scanning a string literal's content yields: the decoded text and the
/// cursor after the closing quote, or a lexical error at a position.
pub enum StrScan {
    SDone { text: Seq<char>, after: Cursor },
    SFail { kind: LexErrorKind, at: Cursor },
}

/// What scanning one escape sequence yields: the decoded character and the
/// cursor after the sequence, or a lexical error at a position.
pub enum EscScan {
    EDone { ch: char, after: Cursor },
    EFail { kind: LexErrorKind, at: Cursor },
}

/// The escapes that decode to a fixed single character.
pub open spec fn simple_escape(e: char) -> bool {
    e == '"' || e == '\\' || e == '/' || e == 'b' || e == 'f' || e == 'n' || e == 'r' || e == 't'
}

/// The character a simple escape decodes to.
pub open spec fn simple_escape_char(e: char) -> char {
    if e == '"' {
        '"'
    } else if e == '\\' {
        '\\'
    } else if e == '/' {
        '/'
    } else if e == 'b' {
        '\u{0008}'
    } else if e == 'f' {
        '\u{000C}'
    } else if e == 'n' {
        '\n'
    } else if e == 'r' {
        '\r'
    } else {
        '\t'
    }
}

/// Four hexadecimal digits stand at positions `i .. i + 4`.
pub open spec fn hex4_at(s: Seq<char>, i: int) -> bool {
    is_hex_digit(s[i]) && is_hex_digit(s[i + 1]) && is_hex_digit(s[i + 2]) && is_hex_digit(
        s[i + 3],
    )
}

/// The value of the four hexadecimal digits at positions `i .. i + 4`.
pub open spec fn hex4_val(s: Seq<char>, i: int) -> int {
    hex_val(s[i]) * 0x1000 + hex_val(s[i + 1]) * 0x100 + hex_val(s[i + 2]) * 0x10 + hex_val(
        s[i + 3],
    )
}

/// A high surrogate code unit.
pub open spec fn is_high_surrogate(v: int) -> bool {
    0xD800 <= v < 0xDC00
}

/// A low surrogate code unit.
pub open spec fn is_low_surrogate(v: int) -> bool {
    0xDC00 <= v < 0xE000
}

/// The code point a surrogate pair encodes.
pub open spec fn surrogate_combine(hi: int, lo: int) -> int {
    0x10000 + (hi - 0xD800) * 0x400 + (lo - 0xDC00)
}

/// Scans the escape sequence whose backslash stands at the cursor.
///
/// A backslash as the last input character leaves the literal unterminated;
/// an unrecognized or malformed escape is reported at the backslash, as is a
/// surrogate escape without its partner.
pub open spec fn scan_escape(s: Seq<char>, c: Cursor) -> EscScan {
    if c.pos + 2 > s.len() {
        EscScan::EFail { kind: LexErrorKind::UnterminatedString, at: adv_n(c, 1) }
    } else if simple_escape(s[c.pos + 1]) {
        EscScan::EDone { ch: simple_escape_char(s[c.pos + 1]), after: adv_n(c, 2) }
    } else if s[c.pos + 1] == 'u' {
        if c.pos + 6 > s.len() || !hex4_at(s, c.pos + 2) {
            EscScan::EFail { kind: LexErrorKind::InvalidEscape, at: c }
        } else {
            let v = hex4_val(s, c.pos + 2);
            if is_high_surrogate(v) {
                if c.pos + 12 <= s.len() && s[c.pos + 6] == '\\' && s[c.pos + 7] == 'u' && hex4_at(
                    s,
                    c.pos + 8,
                ) && is_low_surrogate(hex4_val(s, c.pos + 8)) {
                    EscScan::EDone {
                        ch: (surrogate_combine(v, hex4_val(s, c.pos + 8)) as u32) as char,
                        after: adv_n(c, 12),
                    }
                } else {
                    EscScan::EFail { kind: LexErrorKind::UnpairedSurrogate, at: c }
                }
            } else if is_low_surrogate(v) {
                EscScan::EFail { kind: LexErrorKind::UnpairedSurrogate, at: c }
            } else {
                EscScan::EDone { ch: (v as u32) as char, after: adv_n(c, 6) }
            }
        }
    } else {
        EscScan::EFail { kind: LexErrorKind::InvalidEscape, at: c }
    }
}

/// Scans a string literal's content from the cursor (just after the opening
/// quote) to its closing unescaped quote, decoding escapes.
pub open spec fn scan_string(s: Seq<char>, c: Cursor) -> StrScan
    decreases s.len() - c.pos,
{
    if !(0 <= c.pos < s.len()) {
        StrScan::SFail { kind: LexErrorKind::UnterminatedString, at: c }
    } else if s[c.pos] == '"' {
        StrScan::SDone { text: Seq::empty(), after: adv_n(c, 1) }
    } else if s[c.pos] == '\\' {
        match scan_escape(s, c) {
            EscScan::EDone { ch, after } => match scan_string(s, after) {
                StrScan::SDone { text, after: end } => StrScan::SDone {
                    text: seq![ch] + text,
                    after: end,
                },
                fail => fail,
            },
            EscScan::EFail { kind, at } => StrScan::SFail { kind, at },
        }
    } else {
        match scan_string(s, adv(c, s[c.pos])) {
            StrScan::SDone { text, after } => StrScan::SDone {
                text: seq![s[c.pos]] + text,
                after,
            },
            fail => fail,
        }
    }
}

/// The end of the run of decimal digits starting at `i`.
pub open spec fn digits_end(t: Seq<char>, i: int) -> int
    decreases t.len() - i,
{
    if 0 <= i < t.len() && is_digit(t[i]) {
        digits_end(t, i + 1)
    } else {
        i
    }
}

/// The end of the run of number-like characters starting at `i`.
pub open spec fn number_run_end(s: Seq<char>, i: int) -> int
    decreases s.len() - i,
{
    if 0 <= i < s.len() && is_number_char(s[i]) {
        number_run_end(s, i + 1)
    } else {
        i
    }
}

/// The end of the run of word characters starting at `i`.
pub open spec fn word_run_end(s: Seq<char>, i: int) -> int
    decreases s.len() - i,
{
    if 0 <= i < s.len() && is_word_char(s[i]) {
        word_run_end(s, i + 1)
    } else {
        i
    }
}

/// Where the integer part ends, if text from `i` starts with a valid one:
/// `0` alone, or a nonzero digit followed by more digits.
pub open spec fn after_int(t: Seq<char>, i: int) -> Option<int> {
    if 0 <= i < t.len() && t[i] == '0' {
        Some(i + 1)
    } else if digits_end(t, i) > i {
        Some(digits_end(t, i))
    } else {
        None
    }
}

/// Where the optional fraction ends: a `.` must be followed by at least one
/// digit.
pub open spec fn after_frac(t: Seq<char>, i: int) -> Option<int> {
    if 0 <= i < t.len() && t[i] == '.' {
        if digits_end(t, i + 1) > i + 1 {
            Some(digits_end(t, i + 1))
        } else {
            None
        }
    } else {
        Some(i)
    }
}

/// Where the optional exponent ends: `e` or `E`, an optional sign, and at
/// least one digit.
pub open spec fn after_exp(t: Seq<char>, i: int) -> Option<int> {
    if 0 <= i < t.len() && (t[i] == 'e' || t[i] == 'E') {
        let j = if i + 1 < t.len() && (t[i + 1] == '+' || t[i + 1] == '-') {
            i + 2
        } else {
            i + 1
        };
        if digits_end(t, j) > j {
            Some(digits_end(t, j))
        } else {
            None
        }
    } else {
        Some(i)
    }
}

/// The numeric grammar: optional minus, integer part with no leading zero
/// except `0` itself, optional fraction, optional exponent, nothing after.
pub open spec fn valid_number(t: Seq<char>) -> bool {
    let b: int = if t.len() > 0 && t[0] == '-' {
        1
    } else {
        0
    };
    match after_int(t, b) {
        Option::None => false,
        Option::Some(i1) => match after_frac(t, i1) {
            Option::None => false,
            Option::Some(i2) => match after_exp(t, i2) {
                Option::None => false,
                Option::Some(i3) => i3 == t.len(),
            },
        },
    }
}

/// What scanning for the next token yields: a token kind with the position
/// of its first character and the cursor after it; the end of input; or a
/// lexical error at a position.
pub enum Scan {
    Tok { kind: GTokKind, line: int, col: int, after: Cursor },
    End { at: Cursor },
    Fail { kind: LexErrorKind, at: Cursor },
}

/// Scans one token: skips whitespace, then dispatches on the first
/// character, as the lexical grammar prescribes.
pub open spec fn scan_token(s: Seq<char>, c0: Cursor) -> Scan {
    let c = skip_ws(s, c0);
    if c.pos >= s.len() {
        Scan::End { at: c }
    } else {
        let ch = s[c.pos];
        if ch == '{' {
            Scan::Tok { kind: GTokKind::GLBrace, line: c.line, col: c.col, after: adv_n(c, 1) }
        } else if ch == '}' {
            Scan::Tok { kind: GTokKind::GRBrace, line: c.line, col: c.col, after: adv_n(c, 1) }
        } else if ch == '[' {
            Scan::Tok { kind: GTokKind::GLBracket, line: c.line, col: c.col, after: adv_n(c, 1) }
        } else if ch == ']' {
            Scan::Tok { kind: GTokKind::GRBracket, line: c.line, col: c.col, after: adv_n(c, 1) }
        } else if ch == ':' {
            Scan::Tok { kind: GTokKind::GColon, line: c.line, col: c.col, after: adv_n(c, 1) }
        } else if ch == ',' {
            Scan::Tok { kind: GTokKind::GComma, line: c.line, col: c.col, after: adv_n(c, 1) }
        } else if ch == '"' {
            match scan_string(s, adv_n(c, 1)) {
                StrScan::SDone { text, after } => Scan::Tok {
                    kind: GTokKind::GStr(text),
                    line: c.line,
                    col: c.col,
                    after,
                },
                StrScan::SFail { kind, at } => Scan::Fail { kind, at },
            }
        } else if ch == '-' || is_digit(ch) {
            let e = number_run_end(s, c.pos);
            if valid_number(s.subrange(c.pos, e)) {
                Scan::Tok {
                    kind: GTokKind::GNum(s.subrange(c.pos, e)),
                    line: c.line,
                    col: c.col,
                    after: adv_n(c, e - c.pos),
                }
            } else {
                Scan::Fail { kind: LexErrorKind::MalformedNumber, at: c }
            }
        } else if ch == 't' || ch == 'f' || ch == 'n' {
            let e = word_run_end(s, c.pos);
            let w = s.subrange(c.pos, e);
            if w == seq!['t', 'r', 'u', 'e'] {
                Scan::Tok {
                    kind: GTokKind::GBool(true),
                    line: c.line,
                    col: c.col,
                    after: adv_n(c, 4),
                }
            } else if w == seq!['f', 'a', 'l', 's', 'e'] {
                Scan::Tok {
                    kind: GTokKind::GBool(false),
                    line: c.line,
                    col: c.col,
                    after: adv_n(c, 5),
                }
            } else if w == seq!['n', 'u', 'l', 'l'] {
                Scan::Tok { kind: GTokKind::GNull, line: c.line, col: c.col, after: adv_n(c, 4) }
            } else {
                Scan::Fail { kind: LexErrorKind::UnexpectedCharacter, at: c }
            }
        } else {
            Scan::Fail { kind: LexErrorKind::UnexpectedCharacter, at: c }
        }
    }
}


/// The scan of a string literal resumes: what remains to scan from `c`,
/// prefixed by the `done` characters, is the whole scan from `c1`.
pub open spec fn str_resume(s: Seq<char>, c1: Cursor, done: Seq<char>, c: Cursor) -> bool {
    scan_string(s, c1) == (match scan_string(s, c) {
        StrScan::SDone { text, after } => StrScan::SDone { text: done + text, after },
        StrScan::SFail { kind, at } => StrScan::SFail { kind, at },
    })
}

/// Consuming one plain content character keeps the scan resumable.
pub proof fn lemma_str_resume_char(s: Seq<char>, c1: Cursor, done: Seq<char>, c: Cursor)
    requires
        str_resume(s, c1, done, c),
        0 <= c.pos < s.len(),
        s[c.pos] != '"',
        s[c.pos] != '\\',
    ensures
        str_resume(s, c1, done.push(s[c.pos]), adv(c, s[c.pos])),
{
    match scan_string(s, adv(c, s[c.pos])) {
        StrScan::SDone { text, after } => {
            assert(done + (seq![s[c.pos]] + text) =~= done.push(s[c.pos]) + text);
        },
        StrScan::SFail { .. } => {},
    }
}

/// Consuming one whole escape sequence keeps the scan resumable.
pub proof fn lemma_str_resume_escape(
    s: Seq<char>,
    c1: Cursor,
    done: Seq<char>,
    c: Cursor,
    ch: char,
    after: Cursor,
)
    requires
        str_resume(s, c1, done, c),
        0 <= c.pos < s.len(),
        s[c.pos] == '\\',
        scan_escape(s, c) == (EscScan::EDone { ch, after }),
    ensures
        str_resume(s, c1, done.push(ch), after),
{
    match scan_string(s, after) {
        StrScan::SDone { text, after: end } => {
            assert(done + (seq![ch] + text) =~= done.push(ch) + text);
        },
        StrScan::SFail { .. } => {},
    }
}


/// Skipping whitespace never rewinds and never passes the end of input.
pub proof fn lemma_skip_ws_bounds(s: Seq<char>, c: Cursor)
    ensures
        skip_ws(s, c).pos >= c.pos,
        c.pos <= s.len() ==> skip_ws(s, c).pos <= s.len(),
        cur_wf(s, c) ==> cur_wf(s, skip_ws(s, c)),
    decreases s.len() - c.pos,
{
    if 0 <= c.pos < s.len() && crate::chars::is_ws(s[c.pos]) {
        lemma_skip_ws_bounds(s, adv(c, s[c.pos]));
    }
}

/// A number-character run ends within the input and not before its start.
pub proof fn lemma_number_run_bounds(s: Seq<char>, i: int)
    requires
        0 <= i <= s.len(),
    ensures
        i <= number_run_end(s, i) <= s.len(),
    decreases s.len() - i,
{
    if i < s.len() && crate::chars::is_number_char(s[i]) {
        lemma_number_run_bounds(s, i + 1);
    }
}

/// A word-character run ends within the input and not before its start.
pub proof fn lemma_word_run_bounds(s: Seq<char>, i: int)
    requires
        0 <= i <= s.len(),
    ensures
        i <= word_run_end(s, i) <= s.len(),
    decreases s.len() - i,
{
    if i < s.len() && crate::chars::is_word_char(s[i]) {
        lemma_word_run_bounds(s, i + 1);
    }
}

/// A completed string scan ends strictly past its start and within bounds.
pub proof fn lemma_scan_string_bounds(s: Seq<char>, c: Cursor)
    ensures
        scan_string(s, c) matches StrScan::SDone { text, after } ==> c.pos < after.pos
            <= s.len(),
    decreases s.len() - c.pos,
{
    if 0 <= c.pos < s.len() {
        if s[c.pos] == '"' {
        } else if s[c.pos] == '\\' {
            match scan_escape(s, c) {
                EscScan::EDone { ch, after } => {
                    lemma_scan_string_bounds(s, after);
                },
                EscScan::EFail { .. } => {},
            }
        } else {
            lemma_scan_string_bounds(s, adv(c, s[c.pos]));
        }
    }
}

/// A scanned token ends strictly past the scan's start and within bounds;
/// at the end of input the cursor stands at the end.
pub proof fn lemma_scan_token_bounds(s: Seq<char>, c: Cursor)
    requires
        0 <= c.pos,
    ensures
        scan_token(s, c) matches Scan::Tok { after, .. } ==> c.pos < after.pos <= s.len(),
        scan_token(s, c) matches Scan::End { at } ==> at.pos >= c.pos,
{
    lemma_skip_ws_bounds(s, c);
    let cw = skip_ws(s, c);
    if cw.pos < s.len() {
        let ch = s[cw.pos];
        if ch == '"' {
            lemma_scan_string_bounds(s, adv_n(cw, 1));
        } else if ch == '-' || crate::chars::is_digit(ch) {
            lemma_number_run_bounds(s, cw.pos);
        } else if ch == 't' || ch == 'f' || ch == 'n' {
            lemma_word_run_bounds(s, cw.pos);
            let e = word_run_end(s, cw.pos);
            let w = s.subrange(cw.pos, e);
            assert(w.len() == e - cw.pos);
        }
    }
}

} // verus!
