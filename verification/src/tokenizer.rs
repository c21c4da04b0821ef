//! The tokenizer: scans raw text into a lazy, finite sequence of positioned
//! tokens. Consuming one element advances an internal cursor (character
//! offset plus 1-indexed line and column counters); it never rewinds. Each
//! produced element is proved to be exactly what [`crate::lex::scan_token`]
//! prescribes at the current cursor.
use vstd::prelude::*;

use crate::chars::char_of_scalar;
use crate::chars::chars_to_string;
use crate::chars::digit_char;
use crate::chars::hex_digit;
use crate::chars::hex_value;
use crate::chars::number_char;
use crate::chars::word_char;
use crate::chars::ws_char;
use crate::lex::Cursor;
use crate::lex::EscScan;
use crate::lex::Scan;
use crate::lex::StrScan;
use crate::lex::adv_n;
use crate::lex::cur_wf;
use crate::lex::digits_end;
use crate::lex::lemma_str_resume_char;
use crate::lex::lemma_str_resume_escape;
use crate::lex::number_run_end;
use crate::lex::scan_escape;
use crate::lex::scan_string;
use crate::lex::scan_token;
use crate::lex::skip_ws;
use crate::lex::str_resume;
use crate::lex::valid_number;
use crate::lex::word_run_end;
use crate::token::GTokKind;
use crate::token::LexError;
use crate::token::LexErrorKind;
use crate::token::Token;
use crate::token::TokenType;

verus! {

/// Advances past JSON whitespace: returns the offset, line and column of the
/// first character that is not whitespace (or of the end of input).
#[verifier::loop_isolation(false)]
pub fn skip_whitespace(input: &Vec<char>, pos: usize, line: usize, col: usize) -> (r: (
    usize,
    usize,
    usize,
))
    requires
        cur_wf(input@, Cursor { pos: pos as int, line: line as int, col: col as int }),
    ensures
        (Cursor { pos: r.0 as int, line: r.1 as int, col: r.2 as int }) == skip_ws(
            input@,
            Cursor { pos: pos as int, line: line as int, col: col as int },
        ),
        cur_wf(input@, Cursor { pos: r.0 as int, line: r.1 as int, col: r.2 as int }),
        pos <= r.0,
{
    let ghost c0 = Cursor { pos: pos as int, line: line as int, col: col as int };
    let mut p = pos;
    let mut l = line;
    let mut co = col;
    while p < input.len() && ws_char(input[p])
        invariant
            cur_wf(input@, Cursor { pos: p as int, line: l as int, col: co as int }),
            skip_ws(input@, c0) == skip_ws(
                input@,
                Cursor { pos: p as int, line: l as int, col: co as int },
            ),
            pos <= p,
        decreases input.len() - p,
    {
        if input[p] == '\n' {
            l = l + 1;
            co = 1;
        } else {
            co = co + 1;
        }
        p = p + 1;
    }
    (p, l, co)
}

/// The end of the run of decimal digits starting at `from`.
#[verifier::loop_isolation(false)]
fn digits_run(input: &Vec<char>, from: usize) -> (e: usize)
    requires
        from <= input@.len(),
    ensures
        e as int == digits_end(input@, from as int),
        from <= e <= input@.len(),
{
    let mut e = from;
    while e < input.len() && digit_char(input[e])
        invariant
            from <= e <= input@.len(),
            digits_end(input@, from as int) == digits_end(input@, e as int),
        decreases input.len() - e,
    {
        e = e + 1;
    }
    e
}

/// The end of the run of number-like characters starting at `from`.
#[verifier::loop_isolation(false)]
fn number_run(input: &Vec<char>, from: usize) -> (e: usize)
    requires
        from <= input@.len(),
    ensures
        e as int == number_run_end(input@, from as int),
        from <= e <= input@.len(),
{
    let mut e = from;
    while e < input.len() && number_char(input[e])
        invariant
            from <= e <= input@.len(),
            number_run_end(input@, from as int) == number_run_end(input@, e as int),
        decreases input.len() - e,
    {
        e = e + 1;
    }
    e
}

/// The end of the run of word characters starting at `from`.
#[verifier::loop_isolation(false)]
fn word_run(input: &Vec<char>, from: usize) -> (e: usize)
    requires
        from <= input@.len(),
    ensures
        e as int == word_run_end(input@, from as int),
        from <= e <= input@.len(),
{
    let mut e = from;
    while e < input.len() && word_char(input[e])
        invariant
            from <= e <= input@.len(),
            word_run_end(input@, from as int) == word_run_end(input@, e as int),
        decreases input.len() - e,
    {
        e = e + 1;
    }
    e
}

/// Copies the characters `from .. to` into a fresh vector.
#[verifier::loop_isolation(false)]
fn copy_range(input: &Vec<char>, from: usize, to: usize) -> (r: Vec<char>)
    requires
        from <= to <= input@.len(),
    ensures
        r@ == input@.subrange(from as int, to as int),
{
    let mut r: Vec<char> = Vec::new();
    let mut i = from;
    while i < to
        invariant
            from <= i <= to,
            r@ == input@.subrange(from as int, i as int),
        decreases to - i,
    {
        r.push(input[i]);
        proof {
            assert(r@ =~= input@.subrange(from as int, i + 1 as int));
        }
        i = i + 1;
    }
    r
}

/// Decides the numeric grammar on a whole text: optional minus, integer
/// part with no leading zero except `0` itself, optional fraction, optional
/// exponent.
pub fn check_number(t: &Vec<char>) -> (r: bool)
    ensures
        r == valid_number(t@),
{
    let n = t.len();
    let b: usize = if n > 0 && t[0] == '-' {
        1
    } else {
        0
    };
    // integer part
    let i1: usize;
    if b < n && t[b] == '0' {
        i1 = b + 1;
    } else {
        let d = digits_run(t, b);
        if d > b {
            i1 = d;
        } else {
            return false;
        }
    }
    // optional fraction
    let i2: usize;
    if i1 < n && t[i1] == '.' {
        let d = digits_run(t, i1 + 1);
        if d > i1 + 1 {
            i2 = d;
        } else {
            return false;
        }
    } else {
        i2 = i1;
    }
    // optional exponent
    let i3: usize;
    if i2 < n && (t[i2] == 'e' || t[i2] == 'E') {
        let j: usize = if i2 + 1 < n && (t[i2 + 1] == '+' || t[i2 + 1] == '-') {
            i2 + 2
        } else {
            i2 + 1
        };
        let d = digits_run(t, j);
        if d > j {
            i3 = d;
        } else {
            return false;
        }
    } else {
        i3 = i2;
    }
    i3 == n
}

/// The tokenizer's cursor state over an owned character buffer. After a
/// lexical error the sequence has ended: no further element is produced.
pub struct Tokenizer {
    input: Vec<char>,
    pos: usize,
    line: usize,
    col: usize,
    failed: bool,
}

impl Tokenizer {
    /// The characters being scanned.
    pub closed spec fn inp(&self) -> Seq<char> {
        self.input@
    }

    /// The current cursor.
    pub closed spec fn cursor(&self) -> Cursor {
        Cursor { pos: self.pos as int, line: self.line as int, col: self.col as int }
    }

    /// Whether a lexical error has ended the sequence.
    pub closed spec fn has_failed(&self) -> bool {
        self.failed
    }

    /// The cursor fits the input.
    pub open spec fn wf(&self) -> bool {
        cur_wf(self.inp(), self.cursor())
    }

    /// A fresh tokenizer at offset 0, line 1, column 1.
    pub fn new(input: Vec<char>) -> (t: Tokenizer)
        requires
            input@.len() < usize::MAX,
        ensures
            t.inp() == input@,
            t.cursor() == (Cursor { pos: 0, line: 1, col: 1 }),
            !t.has_failed(),
            t.wf(),
    {
        Tokenizer { input, pos: 0, line: 1, col: 1, failed: false }
    }

    /// The 1-indexed line of the current cursor.
    pub fn line(&self) -> (r: usize)
        ensures
            r as int == self.cursor().line,
    {
        self.line
    }

    /// The 1-indexed column of the current cursor.
    pub fn column(&self) -> (r: usize)
        ensures
            r as int == self.cursor().col,
    {
        self.col
    }

    /// Produces the next token, the end of the sequence (`None`), or the
    /// lexical error that ends it: exactly what `scan_token` prescribes at
    /// the current cursor.
    pub fn next_token(&mut self) -> (r: Option<Result<Token, LexError>>)
        requires
            old(self).wf(),
        ensures
            final(self).inp() == old(self).inp(),
            final(self).wf(),
            old(self).has_failed() ==> r is None && final(self).has_failed(),
            !old(self).has_failed() ==> match scan_token(old(self).inp(), old(self).cursor()) {
                Scan::Tok { kind, line, col, after } => {
                    &&& r matches Some(Ok(t)) && t.kind.gview() == kind && t.line as int == line
                        && t.column as int == col
                    &&& final(self).cursor() == after
                    &&& !final(self).has_failed()
                },
                Scan::End { at } => r is None && final(self).cursor() == at
                    && !final(self).has_failed(),
                Scan::Fail { kind, at } => {
                    &&& r matches Some(Err(e)) && e.kind == kind && e.line as int == at.line
                        && e.column as int == at.col
                    &&& final(self).has_failed()
                },
            },
    {
        if self.failed {
            return None;
        }
        let r = skip_whitespace(&self.input, self.pos, self.line, self.col);
        self.pos = r.0;
        self.line = r.1;
        self.col = r.2;
        if self.pos >= self.input.len() {
            return None;
        }
        let ch = self.input[self.pos];
        let tl = self.line;
        let tc = self.col;
        if ch == '{' {
            self.pos = self.pos + 1;
            self.col = self.col + 1;
            return Some(Ok(Token { kind: TokenType::LeftBrace, line: tl, column: tc }));
        }
        if ch == '}' {
            self.pos = self.pos + 1;
            self.col = self.col + 1;
            return Some(Ok(Token { kind: TokenType::RightBrace, line: tl, column: tc }));
        }
        if ch == '[' {
            self.pos = self.pos + 1;
            self.col = self.col + 1;
            return Some(Ok(Token { kind: TokenType::LeftBracket, line: tl, column: tc }));
        }
        if ch == ']' {
            self.pos = self.pos + 1;
            self.col = self.col + 1;
            return Some(Ok(Token { kind: TokenType::RightBracket, line: tl, column: tc }));
        }
        if ch == ':' {
            self.pos = self.pos + 1;
            self.col = self.col + 1;
            return Some(Ok(Token { kind: TokenType::Colon, line: tl, column: tc }));
        }
        if ch == ',' {
            self.pos = self.pos + 1;
            self.col = self.col + 1;
            return Some(Ok(Token { kind: TokenType::Comma, line: tl, column: tc }));
        }
        if ch == '"' {
            return self.string_token();
        }
        if ch == '-' || digit_char(ch) {
            let e = number_run(&self.input, self.pos);
            let text = copy_range(&self.input, self.pos, e);
            if check_number(&text) {
                let n = e - self.pos;
                self.pos = e;
                self.col = self.col + n;
                return Some(
                    Ok(
                        Token {
                            kind: TokenType::Number(chars_to_string(&text)),
                            line: tl,
                            column: tc,
                        },
                    ),
                );
            } else {
                self.failed = true;
                return Some(
                    Err(LexError { kind: LexErrorKind::MalformedNumber, line: tl, column: tc }),
                );
            }
        }
        if ch == 't' || ch == 'f' || ch == 'n' {
            return self.word_token();
        }
        self.failed = true;
        Some(Err(LexError { kind: LexErrorKind::UnexpectedCharacter, line: tl, column: tc }))
    }

    /// Scans the string literal whose opening quote stands at the cursor.
    #[verifier::loop_isolation(false)]
    #[verifier::rlimit(100)]
    #[verifier::spinoff_prover]
    fn string_token(&mut self) -> (r: Option<Result<Token, LexError>>)
        requires
            old(self).wf(),
            !old(self).has_failed(),
            old(self).cursor().pos < old(self).inp().len(),
            old(self).inp()[old(self).cursor().pos] == '"',
        ensures
            final(self).inp() == old(self).inp(),
            final(self).wf(),
            match scan_string(old(self).inp(), adv_n(old(self).cursor(), 1)) {
                StrScan::SDone { text, after } => {
                    &&& r matches Some(Ok(t)) && t.kind.gview() == GTokKind::GStr(text)
                        && t.line as int == old(self).cursor().line && t.column as int == old(
                        self,
                    ).cursor().col
                    &&& final(self).cursor() == after
                    &&& !final(self).has_failed()
                },
                StrScan::SFail { kind, at } => {
                    &&& r matches Some(Err(e)) && e.kind == kind && e.line as int == at.line
                        && e.column as int == at.col
                    &&& final(self).has_failed()
                },
            },
    {
        let ghost s = self.inp();
        let tl = self.line;
        let tc = self.col;
        self.pos = self.pos + 1;
        self.col = self.col + 1;
        let ghost c1 = self.cursor();
        let mut buf: Vec<char> = Vec::new();
        loop
            invariant
                self.wf(),
                self.inp() == s,
                !self.failed,
                str_resume(s, c1, buf@, self.cursor()),
            decreases s.len() - self.cursor().pos,
        {
            if self.pos >= self.input.len() {
                self.failed = true;
                return Some(
                    Err(
                        LexError {
                            kind: LexErrorKind::UnterminatedString,
                            line: self.line,
                            column: self.col,
                        },
                    ),
                );
            }
            let ch = self.input[self.pos];
            if ch == '"' {
                let tok = Token {
                    kind: TokenType::String(chars_to_string(&buf)),
                    line: tl,
                    column: tc,
                };
                proof {
                    assert(buf@ + Seq::<char>::empty() =~= buf@);
                }
                self.pos = self.pos + 1;
                self.col = self.col + 1;
                return Some(Ok(tok));
            }
            if ch == '\\' {
                let ghost ce = self.cursor();
                if self.input.len() - self.pos < 2 {
                    self.failed = true;
                    return Some(
                        Err(
                            LexError {
                                kind: LexErrorKind::UnterminatedString,
                                line: self.line,
                                column: self.col + 1,
                            },
                        ),
                    );
                }
                let e = self.input[self.pos + 1];
                let dec: char;
                let adv_len: usize;
                if e == '"' {
                    dec = '"';
                    adv_len = 2;
                } else if e == '\\' {
                    dec = '\\';
                    adv_len = 2;
                } else if e == '/' {
                    dec = '/';
                    adv_len = 2;
                } else if e == 'b' {
                    dec = '\u{0008}';
                    adv_len = 2;
                } else if e == 'f' {
                    dec = '\u{000C}';
                    adv_len = 2;
                } else if e == 'n' {
                    dec = '\n';
                    adv_len = 2;
                } else if e == 'r' {
                    dec = '\r';
                    adv_len = 2;
                } else if e == 't' {
                    dec = '\t';
                    adv_len = 2;
                } else if e == 'u' {
                    if self.input.len() - self.pos < 6 {
                        self.failed = true;
                        return Some(
                            Err(
                                LexError {
                                    kind: LexErrorKind::InvalidEscape,
                                    line: self.line,
                                    column: self.col,
                                },
                            ),
                        );
                    }
                    let h0 = self.input[self.pos + 2];
                    let h1 = self.input[self.pos + 3];
                    let h2 = self.input[self.pos + 4];
                    let h3 = self.input[self.pos + 5];
                    if !(hex_digit(h0) && hex_digit(h1) && hex_digit(h2) && hex_digit(h3)) {
                        self.failed = true;
                        return Some(
                            Err(
                                LexError {
                                    kind: LexErrorKind::InvalidEscape,
                                    line: self.line,
                                    column: self.col,
                                },
                            ),
                        );
                    }
                    let v = hex_value(h0) * 0x1000 + hex_value(h1) * 0x100 + hex_value(h2) * 0x10
                        + hex_value(h3);
                    if 0xD800 <= v && v < 0xDC00 {
                        if self.input.len() - self.pos >= 12 && self.input[self.pos + 6] == '\\'
                            && self.input[self.pos + 7] == 'u' && hex_digit(
                            self.input[self.pos + 8],
                        ) && hex_digit(self.input[self.pos + 9]) && hex_digit(
                            self.input[self.pos + 10],
                        ) && hex_digit(self.input[self.pos + 11]) {
                            let w = hex_value(self.input[self.pos + 8]) * 0x1000 + hex_value(
                                self.input[self.pos + 9],
                            ) * 0x100 + hex_value(self.input[self.pos + 10]) * 0x10 + hex_value(
                                self.input[self.pos + 11],
                            );
                            if 0xDC00 <= w && w < 0xE000 {
                                let cp = 0x10000 + (v - 0xD800) * 0x400 + (w - 0xDC00);
                                dec = char_of_scalar(cp);
                                adv_len = 12;
                            } else {
                                self.failed = true;
                                return Some(
                                    Err(
                                        LexError {
                                            kind: LexErrorKind::UnpairedSurrogate,
                                            line: self.line,
                                            column: self.col,
                                        },
                                    ),
                                );
                            }
                        } else {
                            self.failed = true;
                            return Some(
                                Err(
                                    LexError {
                                        kind: LexErrorKind::UnpairedSurrogate,
                                        line: self.line,
                                        column: self.col,
                                    },
                                ),
                            );
                        }
                    } else if 0xDC00 <= v && v < 0xE000 {
                        self.failed = true;
                        return Some(
                            Err(
                                LexError {
                                    kind: LexErrorKind::UnpairedSurrogate,
                                    line: self.line,
                                    column: self.col,
                                },
                            ),
                        );
                    } else {
                        dec = char_of_scalar(v);
                        adv_len = 6;
                    }
                } else {
                    self.failed = true;
                    return Some(
                        Err(
                            LexError {
                                kind: LexErrorKind::InvalidEscape,
                                line: self.line,
                                column: self.col,
                            },
                        ),
                    );
                }
                proof {
                    assert(scan_escape(s, ce) == (EscScan::EDone {
                        ch: dec,
                        after: adv_n(ce, adv_len as int),
                    }));
                    lemma_str_resume_escape(s, c1, buf@, ce, dec, adv_n(ce, adv_len as int));
                }
                buf.push(dec);
                self.pos = self.pos + adv_len;
                self.col = self.col + adv_len;
            } else {
                proof {
                    lemma_str_resume_char(s, c1, buf@, self.cursor());
                }
                buf.push(ch);
                if ch == '\n' {
                    self.line = self.line + 1;
                    self.col = 1;
                } else {
                    self.col = self.col + 1;
                }
                self.pos = self.pos + 1;
            }
        }
    }

    /// Scans a bare word (`true`, `false` or `null`) starting at the cursor.
    #[verifier::loop_isolation(false)]
    fn word_token(&mut self) -> (r: Option<Result<Token, LexError>>)
        requires
            old(self).wf(),
            !old(self).has_failed(),
            old(self).cursor().pos < old(self).inp().len(),
        ensures
            final(self).inp() == old(self).inp(),
            final(self).wf(),
            ({
                let s = old(self).inp();
                let c = old(self).cursor();
                let w = s.subrange(c.pos, word_run_end(s, c.pos));
                if w == seq!['t', 'r', 'u', 'e'] {
                    &&& r matches Some(Ok(t)) && t.kind.gview() == GTokKind::GBool(true)
                        && t.line as int == c.line && t.column as int == c.col
                    &&& final(self).cursor() == adv_n(c, 4)
                    &&& !final(self).has_failed()
                } else if w == seq!['f', 'a', 'l', 's', 'e'] {
                    &&& r matches Some(Ok(t)) && t.kind.gview() == GTokKind::GBool(false)
                        && t.line as int == c.line && t.column as int == c.col
                    &&& final(self).cursor() == adv_n(c, 5)
                    &&& !final(self).has_failed()
                } else if w == seq!['n', 'u', 'l', 'l'] {
                    &&& r matches Some(Ok(t)) && t.kind.gview() == GTokKind::GNull
                        && t.line as int == c.line && t.column as int == c.col
                    &&& final(self).cursor() == adv_n(c, 4)
                    &&& !final(self).has_failed()
                } else {
                    &&& r matches Some(Err(e)) && e.kind == LexErrorKind::UnexpectedCharacter
                        && e.line as int == c.line && e.column as int == c.col
                    &&& final(self).has_failed()
                }
            }),
    {
        let ghost s = self.inp();
        let ghost c = self.cursor();
        let tl = self.line;
        let tc = self.col;
        let e = word_run(&self.input, self.pos);
        let n = e - self.pos;
        let ghost w = s.subrange(c.pos, word_run_end(s, c.pos));
        if n == 4 && self.input[self.pos] == 't' && self.input[self.pos + 1] == 'r'
            && self.input[self.pos + 2] == 'u' && self.input[self.pos + 3] == 'e' {
            proof {
                assert(w =~= seq!['t', 'r', 'u', 'e']);
            }
            self.pos = e;
            self.col = self.col + 4;
            return Some(Ok(Token { kind: TokenType::Boolean(true), line: tl, column: tc }));
        }
        if n == 5 && self.input[self.pos] == 'f' && self.input[self.pos + 1] == 'a'
            && self.input[self.pos + 2] == 'l' && self.input[self.pos + 3] == 's'
            && self.input[self.pos + 4] == 'e' {
            proof {
                assert(w =~= seq!['f', 'a', 'l', 's', 'e']);
            }
            self.pos = e;
            self.col = self.col + 5;
            return Some(Ok(Token { kind: TokenType::Boolean(false), line: tl, column: tc }));
        }
        if n == 4 && self.input[self.pos] == 'n' && self.input[self.pos + 1] == 'u'
            && self.input[self.pos + 2] == 'l' && self.input[self.pos + 3] == 'l' {
            proof {
                assert(w =~= seq!['n', 'u', 'l', 'l']);
            }
            self.pos = e;
            self.col = self.col + 4;
            return Some(Ok(Token { kind: TokenType::Null, line: tl, column: tc }));
        }
        proof {
            assert(w.len() == e - self.pos);
            assert(forall|k: int| 0 <= k < w.len() ==> w[k] == s[c.pos + k]);
            assert(w != seq!['t', 'r', 'u', 'e']);
            assert(w != seq!['f', 'a', 'l', 's', 'e']);
            assert(w != seq!['n', 'u', 'l', 'l']);
        }
        self.failed = true;
        Some(Err(LexError { kind: LexErrorKind::UnexpectedCharacter, line: tl, column: tc }))
    }
}

} // verus!
