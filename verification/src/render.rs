//! The serializer: renders a [`JsonValue`] back into JSON text, in a compact
//! and an indented layout, with the escaping rules of the string grammar.
//!
//! The spec functions here state the exact text of both layouts; the
//! executable writers are proved to produce it character for character.
use vstd::prelude::*;

use crate::chars::chars_to_string;
use crate::chars::hex_char;
use crate::chars::hex_digit_char;
use crate::value::GJson;
use crate::value::JsonValue;
use crate::value::gview_seq;
use crate::value::gview_entries;
use crate::value::lemma_gview_seq;
use crate::value::lemma_gview_entries;

verus! {

broadcast use vstd::seq::axiom_seq_index_decreases, vstd::std_specs::vec::axiom_vec_index_decreases, vstd::std_specs::vec::axiom_vec_decreases_to_view;

/// The rendering of one string character: the named two-character escapes,
/// `\u00xx` for the remaining control characters, the character itself
/// otherwise.
pub open spec fn esc_char(c: char) -> Seq<char> {
    if c == '"' {
        seq!['\\', '"']
    } else if c == '\\' {
        seq!['\\', '\\']
    } else if c == '/' {
        seq!['\\', '/']
    } else if c == '\u{0008}' {
        seq!['\\', 'b']
    } else if c == '\u{000C}' {
        seq!['\\', 'f']
    } else if c == '\n' {
        seq!['\\', 'n']
    } else if c == '\r' {
        seq!['\\', 'r']
    } else if c == '\t' {
        seq!['\\', 't']
    } else if (c as u32) < 0x20 {
        seq!['\\', 'u', '0', '0', hex_digit_char(c as u32 as int / 16), hex_digit_char(
            c as u32 as int % 16,
        )]
    } else {
        seq![c]
    }
}

/// The escaped rendering of the characters of `s` from position `i` on.
pub open spec fn esc_from(s: Seq<char>, i: int) -> Seq<char>
    decreases s.len() - i,
{
    if i < 0 || i >= s.len() {
        Seq::empty()
    } else {
        esc_char(s[i]) + esc_from(s, i + 1)
    }
}

/// A string literal: quote, escaped content, quote.
pub open spec fn quoted(s: Seq<char>) -> Seq<char> {
    seq!['"'] + esc_from(s, 0) + seq!['"']
}

/// The compact rendering of a value: no insignificant whitespace.
pub open spec fn gcompact(g: GJson) -> Seq<char>
    decreases g,
{
    match g {
        GJson::GNull => seq!['n', 'u', 'l', 'l'],
        GJson::GBool(b) => if b {
            seq!['t', 'r', 'u', 'e']
        } else {
            seq!['f', 'a', 'l', 's', 'e']
        },
        GJson::GNum(t) => t,
        GJson::GStr(s) => quoted(s),
        GJson::GArr(elems) => seq!['['] + gcompact_elems(elems) + seq![']'],
        GJson::GObj(entries) => seq!['{'] + gcompact_entries(entries) + seq!['}'],
    }
}

/// Compact array elements, separated by commas.
pub open spec fn gcompact_elems(elems: Seq<GJson>) -> Seq<char>
    decreases elems,
{
    if elems.len() == 0 {
        Seq::empty()
    } else if elems.len() == 1 {
        gcompact(elems[0])
    } else {
        gcompact_elems(elems.drop_last()) + seq![','] + gcompact(elems.last())
    }
}

/// Compact object entries: `"key":value`, separated by commas.
pub open spec fn gcompact_entries(entries: Seq<(Seq<char>, GJson)>) -> Seq<char>
    decreases entries,
{
    if entries.len() == 0 {
        Seq::empty()
    } else if entries.len() == 1 {
        quoted(entries[0].0) + seq![':'] + gcompact(entries[0].1)
    } else {
        gcompact_entries(entries.drop_last()) + seq![','] + quoted(entries.last().0) + seq![':']
            + gcompact(entries.last().1)
    }
}

/// Two spaces of indentation per nesting level.
pub open spec fn indent(depth: int) -> Seq<char>
    decreases depth,
{
    if depth <= 0 {
        Seq::empty()
    } else {
        indent(depth - 1) + seq![' ', ' ']
    }
}

/// The indented rendering of a value standing at nesting level `depth`.
pub open spec fn gpretty(g: GJson, depth: int) -> Seq<char>
    decreases g,
{
    match g {
        GJson::GNull => seq!['n', 'u', 'l', 'l'],
        GJson::GBool(b) => if b {
            seq!['t', 'r', 'u', 'e']
        } else {
            seq!['f', 'a', 'l', 's', 'e']
        },
        GJson::GNum(t) => t,
        GJson::GStr(s) => quoted(s),
        GJson::GArr(elems) => if elems.len() == 0 {
            seq!['[', ']']
        } else {
            seq!['[', '\n'] + gpretty_elems(elems, depth + 1) + seq!['\n'] + indent(depth) + seq![
                ']',
            ]
        },
        GJson::GObj(entries) => if entries.len() == 0 {
            seq!['{', '}']
        } else {
            seq!['{', '\n'] + gpretty_entries(entries, depth + 1) + seq!['\n'] + indent(depth)
                + seq!['}']
        },
    }
}

/// Indented array elements: each on its own line at level `depth`,
/// separated by a comma and a newline.
pub open spec fn gpretty_elems(elems: Seq<GJson>, depth: int) -> Seq<char>
    decreases elems,
{
    if elems.len() == 0 {
        Seq::empty()
    } else if elems.len() == 1 {
        indent(depth) + gpretty(elems[0], depth)
    } else {
        gpretty_elems(elems.drop_last(), depth) + seq![',', '\n'] + indent(depth) + gpretty(
            elems.last(),
            depth,
        )
    }
}

/// Indented object entries: `"key": value`, each on its own line.
pub open spec fn gpretty_entries(entries: Seq<(Seq<char>, GJson)>, depth: int) -> Seq<char>
    decreases entries,
{
    if entries.len() == 0 {
        Seq::empty()
    } else if entries.len() == 1 {
        indent(depth) + quoted(entries[0].0) + seq![':', ' '] + gpretty(entries[0].1, depth)
    } else {
        gpretty_entries(entries.drop_last(), depth) + seq![',', '\n'] + indent(depth) + quoted(
            entries.last().0,
        ) + seq![':', ' '] + gpretty(entries.last().1, depth)
    }
}

/// Appends the rendering of one string character to the output.
fn push_escaped(out: &mut Vec<char>, c: char)
    ensures
        final(out)@ == old(out)@ + esc_char(c),
{
    if c == '"' {
        out.push('\\');
        out.push('"');
    } else if c == '\\' {
        out.push('\\');
        out.push('\\');
    } else if c == '/' {
        out.push('\\');
        out.push('/');
    } else if c == '\u{0008}' {
        out.push('\\');
        out.push('b');
    } else if c == '\u{000C}' {
        out.push('\\');
        out.push('f');
    } else if c == '\n' {
        out.push('\\');
        out.push('n');
    } else if c == '\r' {
        out.push('\\');
        out.push('r');
    } else if c == '\t' {
        out.push('\\');
        out.push('t');
    } else if (c as u32) < 0x20 {
        let u = c as u32;
        out.push('\\');
        out.push('u');
        out.push('0');
        out.push('0');
        out.push(hex_char(u / 16));
        out.push(hex_char(u % 16));
    } else {
        out.push(c);
    }
    proof {
        assert(out@ =~= old(out)@ + esc_char(c));
    }
}

/// Appends a quoted, escaped string literal to the output.
#[verifier::loop_isolation(false)]
fn write_string(s: &String, out: &mut Vec<char>)
    ensures
        final(out)@ == old(out)@ + quoted(s@),
{
    out.push('"');
    let n = s.as_str().unicode_len();
    let mut i: usize = 0;
    while i < n
        invariant
            n == s@.len(),
            i <= n,
            out@ + esc_from(s@, i as int) == old(out)@ + seq!['"'] + esc_from(s@, 0),
        decreases n - i,
    {
        let ghost pre = out@;
        let c = s.as_str().get_char(i);
        push_escaped(out, c);
        proof {
            assert(out@ + esc_from(s@, i + 1 as int) =~= pre + esc_from(s@, i as int));
        }
        i = i + 1;
    }
    proof {
        assert(out@ =~= old(out)@ + seq!['"'] + esc_from(s@, 0));
    }
    out.push('"');
    proof {
        assert(out@ =~= old(out)@ + quoted(s@));
    }
}

/// Appends the characters of a string, unescaped (used for number text).
#[verifier::loop_isolation(false)]
fn append_text(out: &mut Vec<char>, t: &String)
    ensures
        final(out)@ == old(out)@ + t@,
{
    let n = t.as_str().unicode_len();
    let mut i: usize = 0;
    while i < n
        invariant
            n == t@.len(),
            i <= n,
            out@ == old(out)@ + t@.subrange(0, i as int),
        decreases n - i,
    {
        out.push(t.as_str().get_char(i));
        proof {
            assert(out@ =~= old(out)@ + t@.subrange(0, i + 1 as int));
        }
        i = i + 1;
    }
    proof {
        assert(out@ =~= old(out)@ + t@);
    }
}

/// Appends the compact rendering of a value to the output.
fn write_value(v: &JsonValue, out: &mut Vec<char>)
    ensures
        final(out)@ == old(out)@ + gcompact(v.gview()),
    decreases v,
{
    match v {
        JsonValue::Null => {
            out.push('n');
            out.push('u');
            out.push('l');
            out.push('l');
            proof {
                assert(out@ =~= old(out)@ + gcompact(v.gview()));
            }
        },
        JsonValue::Boolean(b) => {
            if *b {
                out.push('t');
                out.push('r');
                out.push('u');
                out.push('e');
            } else {
                out.push('f');
                out.push('a');
                out.push('l');
                out.push('s');
                out.push('e');
            }
            proof {
                assert(out@ =~= old(out)@ + gcompact(v.gview()));
            }
        },
        JsonValue::Number(t) => {
            append_text(out, t);
        },
        JsonValue::String(s) => {
            write_string(s, out);
        },
        JsonValue::Array(elems) => {
            proof {
                let vv = *v;
                assert(decreases_to!(vv => vv->Array_0));
            }
            write_array(elems, out);
        },
        JsonValue::Object(entries) => {
            proof {
                let vv = *v;
                assert(decreases_to!(vv => vv->Object_0));
            }
            write_object(entries, out);
        },
    }
}

/// Appends a compact array: `[`, comma-separated elements, `]`.
#[verifier::loop_isolation(false)]
#[verifier::rlimit(100)]
#[verifier::spinoff_prover]
fn write_array(arr: &Vec<JsonValue>, out: &mut Vec<char>)
    ensures
        final(out)@ == old(out)@ + seq!['['] + gcompact_elems(gview_seq(arr@)) + seq![']'],
    decreases arr,
{
    let ghost gs = gview_seq(arr@);
    proof {
        lemma_gview_seq(arr@);
    }
    out.push('[');
    let mut i: usize = 0;
    while i < arr.len()
        invariant
            i <= arr.len(),
            out@ == old(out)@ + seq!['['] + gcompact_elems(gs.subrange(0, i as int)),
        decreases arr.len() - i,
    {
        if i > 0 {
            out.push(',');
        }
        proof {
            let aa = *arr;
            assert(decreases_to!(aa => aa@));
            assert(decreases_to!(aa@ => aa@[i as int]));
        }
        write_value(&arr[i], out);
        proof {
            assert(gs.subrange(0, i + 1 as int).drop_last() =~= gs.subrange(0, i as int));
            assert(gs.subrange(0, i + 1 as int).last() == gs[i as int]);
            assert(out@ =~= old(out)@ + seq!['['] + gcompact_elems(gs.subrange(0, i + 1 as int)));
        }
        i = i + 1;
    }
    proof {
        assert(gs.subrange(0, arr@.len() as int) =~= gs);
    }
    out.push(']');
    proof {
        assert(out@ =~= old(out)@ + seq!['['] + gcompact_elems(gs) + seq![']']);
    }
}

/// Appends a compact object: `{`, comma-separated `"key":value` entries, `}`.
#[verifier::loop_isolation(false)]
#[verifier::rlimit(100)]
#[verifier::spinoff_prover]
fn write_object(entries: &Vec<(String, JsonValue)>, out: &mut Vec<char>)
    ensures
        final(out)@ == old(out)@ + seq!['{'] + gcompact_entries(gview_entries(entries@)) + seq![
            '}',
        ],
    decreases entries,
{
    let ghost gs = gview_entries(entries@);
    proof {
        lemma_gview_entries(entries@);
    }
    out.push('{');
    let mut i: usize = 0;
    while i < entries.len()
        invariant
            i <= entries.len(),
            out@ == old(out)@ + seq!['{'] + gcompact_entries(gs.subrange(0, i as int)),
        decreases entries.len() - i,
    {
        if i > 0 {
            out.push(',');
        }
        let e = &entries[i];
        write_string(&e.0, out);
        out.push(':');
        proof {
            let aa = *entries;
            assert(decreases_to!(aa => aa@));
            assert(decreases_to!(aa@ => aa@[i as int]));
            assert(decreases_to!(aa@[i as int] => aa@[i as int].1));
        }
        write_value(&e.1, out);
        proof {
            assert(gs.subrange(0, i + 1 as int).drop_last() =~= gs.subrange(0, i as int));
            assert(gs.subrange(0, i + 1 as int).last() == gs[i as int]);
            assert(out@ =~= old(out)@ + seq!['{'] + gcompact_entries(gs.subrange(0, i + 1 as int)));
        }
        i = i + 1;
    }
    proof {
        assert(gs.subrange(0, entries@.len() as int) =~= gs);
    }
    out.push('}');
    proof {
        assert(out@ =~= old(out)@ + seq!['{'] + gcompact_entries(gs) + seq!['}']);
    }
}

/// Appends the characters of the current indentation to the output.
#[verifier::loop_isolation(false)]
fn write_pad(out: &mut Vec<char>, pad: &Vec<char>)
    ensures
        final(out)@ == old(out)@ + pad@,
{
    let mut j: usize = 0;
    while j < pad.len()
        invariant
            j <= pad.len(),
            out@ == old(out)@ + pad@.subrange(0, j as int),
        decreases pad.len() - j,
    {
        out.push(pad[j]);
        proof {
            assert(out@ =~= old(out)@ + pad@.subrange(0, j + 1 as int));
        }
        j = j + 1;
    }
    proof {
        assert(out@ =~= old(out)@ + pad@);
    }
}

/// The indentation one level deeper: the given one and two more spaces.
#[verifier::loop_isolation(false)]
fn deeper_pad(pad: &Vec<char>) -> (r: Vec<char>)
    ensures
        r@ == pad@ + seq![' ', ' '],
{
    let mut r: Vec<char> = Vec::new();
    let mut j: usize = 0;
    while j < pad.len()
        invariant
            j <= pad.len(),
            r@ == pad@.subrange(0, j as int),
        decreases pad.len() - j,
    {
        r.push(pad[j]);
        proof {
            assert(r@ =~= pad@.subrange(0, j + 1 as int));
        }
        j = j + 1;
    }
    r.push(' ');
    r.push(' ');
    proof {
        assert(r@ =~= pad@ + seq![' ', ' ']);
    }
    r
}

/// Appends the indented rendering of a value standing at level `depth`,
/// whose indentation text is `pad`.
fn write_value_pretty(v: &JsonValue, out: &mut Vec<char>, pad: &Vec<char>, Ghost(depth): Ghost<
    int,
>)
    requires
        0 <= depth,
        pad@ == indent(depth),
    ensures
        final(out)@ == old(out)@ + gpretty(v.gview(), depth),
    decreases v,
{
    match v {
        JsonValue::Null => {
            out.push('n');
            out.push('u');
            out.push('l');
            out.push('l');
            proof {
                assert(out@ =~= old(out)@ + gpretty(v.gview(), depth));
            }
        },
        JsonValue::Boolean(b) => {
            if *b {
                out.push('t');
                out.push('r');
                out.push('u');
                out.push('e');
            } else {
                out.push('f');
                out.push('a');
                out.push('l');
                out.push('s');
                out.push('e');
            }
            proof {
                assert(out@ =~= old(out)@ + gpretty(v.gview(), depth));
            }
        },
        JsonValue::Number(t) => {
            append_text(out, t);
        },
        JsonValue::String(s) => {
            write_string(s, out);
        },
        JsonValue::Array(elems) => {
            proof {
                let vv = *v;
                assert(decreases_to!(vv => vv->Array_0));
            }
            write_array_pretty(elems, out, pad, Ghost(depth));
        },
        JsonValue::Object(entries) => {
            proof {
                let vv = *v;
                assert(decreases_to!(vv => vv->Object_0));
            }
            write_object_pretty(entries, out, pad, Ghost(depth));
        },
    }
}

/// Appends an indented array: each element on its own line one level
/// deeper, the closing bracket at the parent's indent; `[]` when empty.
#[verifier::loop_isolation(false)]
#[verifier::rlimit(100)]
#[verifier::spinoff_prover]
fn write_array_pretty(arr: &Vec<JsonValue>, out: &mut Vec<char>, pad: &Vec<char>, Ghost(
    depth,
): Ghost<int>)
    requires
        0 <= depth,
        pad@ == indent(depth),
    ensures
        final(out)@ == old(out)@ + gpretty(GJson::GArr(gview_seq(arr@)), depth),
    decreases arr,
{
    let ghost gs = gview_seq(arr@);
    proof {
        lemma_gview_seq(arr@);
    }
    if arr.len() == 0 {
        out.push('[');
        out.push(']');
        proof {
            assert(out@ =~= old(out)@ + gpretty(GJson::GArr(gs), depth));
        }
        return ;
    }
    let pad2 = deeper_pad(pad);
    proof {
        assert(pad2@ =~= indent(depth + 1));
    }
    out.push('[');
    out.push('\n');
    let mut i: usize = 0;
    while i < arr.len()
        invariant
            i <= arr.len(),
            out@ == old(out)@ + seq!['[', '\n'] + gpretty_elems(gs.subrange(0, i as int), depth + 1),
        decreases arr.len() - i,
    {
        if i > 0 {
            out.push(',');
            out.push('\n');
        }
        write_pad(out, &pad2);
        proof {
            let aa = *arr;
            assert(decreases_to!(aa => aa@));
            assert(decreases_to!(aa@ => aa@[i as int]));
        }
        write_value_pretty(&arr[i], out, &pad2, Ghost(depth + 1));
        proof {
            assert(gs.subrange(0, i + 1 as int).drop_last() =~= gs.subrange(0, i as int));
            assert(gs.subrange(0, i + 1 as int).last() == gs[i as int]);
            assert(out@ =~= old(out)@ + seq!['[', '\n'] + gpretty_elems(
                gs.subrange(0, i + 1 as int),
                depth + 1,
            ));
        }
        i = i + 1;
    }
    proof {
        assert(gs.subrange(0, arr@.len() as int) =~= gs);
    }
    out.push('\n');
    write_pad(out, pad);
    out.push(']');
    proof {
        assert(out@ =~= old(out)@ + gpretty(GJson::GArr(gs), depth));
    }
}

/// Appends an indented object: each `"key": value` entry on its own line one
/// level deeper, the closing brace at the parent's indent; `{}` when empty.
#[verifier::loop_isolation(false)]
#[verifier::rlimit(100)]
#[verifier::spinoff_prover]
fn write_object_pretty(entries: &Vec<(String, JsonValue)>, out: &mut Vec<char>, pad: &Vec<
    char,
>, Ghost(depth): Ghost<int>)
    requires
        0 <= depth,
        pad@ == indent(depth),
    ensures
        final(out)@ == old(out)@ + gpretty(GJson::GObj(gview_entries(entries@)), depth),
    decreases entries,
{
    let ghost gs = gview_entries(entries@);
    proof {
        lemma_gview_entries(entries@);
    }
    if entries.len() == 0 {
        out.push('{');
        out.push('}');
        proof {
            assert(out@ =~= old(out)@ + gpretty(GJson::GObj(gs), depth));
        }
        return ;
    }
    let pad2 = deeper_pad(pad);
    proof {
        assert(pad2@ =~= indent(depth + 1));
    }
    out.push('{');
    out.push('\n');
    let mut i: usize = 0;
    while i < entries.len()
        invariant
            i <= entries.len(),
            out@ == old(out)@ + seq!['{', '\n'] + gpretty_entries(
                gs.subrange(0, i as int),
                depth + 1,
            ),
        decreases entries.len() - i,
    {
        if i > 0 {
            out.push(',');
            out.push('\n');
        }
        write_pad(out, &pad2);
        let e = &entries[i];
        write_string(&e.0, out);
        out.push(':');
        out.push(' ');
        proof {
            let aa = *entries;
            assert(decreases_to!(aa => aa@));
            assert(decreases_to!(aa@ => aa@[i as int]));
            assert(decreases_to!(aa@[i as int] => aa@[i as int].1));
        }
        write_value_pretty(&e.1, out, &pad2, Ghost(depth + 1));
        proof {
            assert(gs.subrange(0, i + 1 as int).drop_last() =~= gs.subrange(0, i as int));
            assert(gs.subrange(0, i + 1 as int).last() == gs[i as int]);
            assert(out@ =~= old(out)@ + seq!['{', '\n'] + gpretty_entries(
                gs.subrange(0, i + 1 as int),
                depth + 1,
            ));
        }
        i = i + 1;
    }
    proof {
        assert(gs.subrange(0, entries@.len() as int) =~= gs);
    }
    out.push('\n');
    write_pad(out, pad);
    out.push('}');
    proof {
        assert(out@ =~= old(out)@ + gpretty(GJson::GObj(gs), depth));
    }
}

impl JsonValue {
    /// Serializes the value into compact, minified JSON text: exactly the
    /// characters of [`gcompact`] of its mathematical value.
    pub fn stringify(&self) -> (out: String)
        ensures
            out@ == gcompact(self.gview()),
    {
        let mut buf: Vec<char> = Vec::new();
        write_value(self, &mut buf);
        chars_to_string(&buf)
    }

    /// Serializes the value into human-readable JSON text, indented by two
    /// spaces per nesting level: exactly the characters of [`gpretty`].
    pub fn stringify_pretty(&self) -> (out: String)
        ensures
            out@ == gpretty(self.gview(), 0),
    {
        let mut buf: Vec<char> = Vec::new();
        let pad: Vec<char> = Vec::new();
        proof {
            assert(pad@ =~= indent(0));
        }
        write_value_pretty(self, &mut buf, &pad, Ghost(0));
        chars_to_string(&buf)
    }
}

} // verus!
