//! The JSON text of a value: compact, and pretty-printed with two-space
//! indentation (the forms `serde_json::to_string` and `to_string_pretty` write).
use vstd::prelude::*;
use crate::json::{Json, JsonV, models, pair_models, lemma_models_index, lemma_pair_models_index};

verus! {

pub open spec fn hex_digit(d: int) -> char {
    if d < 10 { (48 + d) as char } else { (87 + d) as char }
}

/// The escape of one character inside a JSON string.
pub open spec fn esc(c: char) -> Seq<char> {
    if c == '"' {
        seq!['\\', '"']
    } else if c == '\\' {
        seq!['\\', '\\']
    } else if c == '\u{8}' {
        seq!['\\', 'b']
    } else if c == '\t' {
        seq!['\\', 't']
    } else if c == '\n' {
        seq!['\\', 'n']
    } else if c == '\u{c}' {
        seq!['\\', 'f']
    } else if c == '\r' {
        seq!['\\', 'r']
    } else if (c as int) < 32 {
        seq!['\\', 'u', '0', '0', hex_digit((c as int) / 16), hex_digit((c as int) % 16)]
    } else {
        seq![c]
    }
}

pub open spec fn escaped(s: Seq<char>) -> Seq<char>
    decreases s.len(),
{
    if s.len() == 0 {
        Seq::empty()
    } else {
        escaped(s.drop_last()) + esc(s.last())
    }
}

/// A JSON string literal.
pub open spec fn quoted(s: Seq<char>) -> Seq<char> {
    seq!['"'] + escaped(s) + seq!['"']
}

pub open spec fn compact(v: JsonV) -> Seq<char>
    decreases v,
{
    match v {
        JsonV::Null => "null"@,
        JsonV::Bool(b) => if b { "true"@ } else { "false"@ },
        JsonV::Number(text, _, _) => text,
        JsonV::Str(s) => quoted(s),
        JsonV::Array(items) => seq!['['] + compact_items(items) + seq![']'],
        JsonV::Object(m) => seq!['{'] + compact_members(m) + seq!['}'],
    }
}

pub open spec fn compact_items(items: Seq<JsonV>) -> Seq<char>
    decreases items,
{
    if items.len() == 0 {
        Seq::empty()
    } else {
        proof {
            assert(decreases_to!(items => items.subrange(0, items.len() - 1)));
            assert(decreases_to!(items => items[items.len() - 1]));
        }
        let prev = compact_items(items.subrange(0, items.len() - 1));
        (if items.len() > 1 { prev + seq![','] } else { prev }) + compact(items[items.len() - 1])
    }
}

pub open spec fn compact_members(m: Seq<(Seq<char>, JsonV)>) -> Seq<char>
    decreases m,
{
    if m.len() == 0 {
        Seq::empty()
    } else {
        proof {
            assert(decreases_to!(m => m.subrange(0, m.len() - 1)));
            assert(decreases_to!(m => m[m.len() - 1]));
            assert(decreases_to!(m[m.len() - 1] => m[m.len() - 1].1));
        }
        let prev = compact_members(m.subrange(0, m.len() - 1));
        (if m.len() > 1 { prev + seq![','] } else { prev }) + quoted(m[m.len() - 1].0) + seq![':'] + compact(m[m.len() - 1].1)
    }
}

/// Two spaces per level.
pub open spec fn indent(depth: nat) -> Seq<char> {
    Seq::new(2 * depth, |i: int| ' ')
}

pub open spec fn pretty(v: JsonV, depth: nat) -> Seq<char>
    decreases v,
{
    match v {
        JsonV::Array(items) => if items.len() == 0 {
            "[]"@
        } else {
            seq!['['] + pretty_items(items, depth + 1) + seq!['\n'] + indent(depth) + seq![']']
        },
        JsonV::Object(m) => if m.len() == 0 {
            "{}"@
        } else {
            seq!['{'] + pretty_members(m, depth + 1) + seq!['\n'] + indent(depth) + seq!['}']
        },
        _ => compact(v),
    }
}

pub open spec fn pretty_items(items: Seq<JsonV>, depth: nat) -> Seq<char>
    decreases items,
{
    if items.len() == 0 {
        Seq::empty()
    } else {
        proof {
            assert(decreases_to!(items => items.subrange(0, items.len() - 1)));
            assert(decreases_to!(items => items[items.len() - 1]));
        }
        let prev = pretty_items(items.subrange(0, items.len() - 1), depth);
        (if items.len() > 1 { prev + seq![','] } else { prev }) + seq!['\n'] + indent(depth) + pretty(items[items.len() - 1], depth)
    }
}

pub open spec fn pretty_members(m: Seq<(Seq<char>, JsonV)>, depth: nat) -> Seq<char>
    decreases m,
{
    if m.len() == 0 {
        Seq::empty()
    } else {
        proof {
            assert(decreases_to!(m => m.subrange(0, m.len() - 1)));
            assert(decreases_to!(m => m[m.len() - 1]));
            assert(decreases_to!(m[m.len() - 1] => m[m.len() - 1].1));
        }
        let prev = pretty_members(m.subrange(0, m.len() - 1), depth);
        (if m.len() > 1 { prev + seq![','] } else { prev }) + seq!['\n'] + indent(depth) + quoted(m[m.len() - 1].0) + seq![':', ' '] + pretty(m[m.len() - 1].1, depth)
    }
}

fn hex_char(d: u32) -> (c: char)
    requires
        d < 16,
    ensures
        c == hex_digit(d as int),
{
    match d {
        0 => '0', 1 => '1', 2 => '2', 3 => '3', 4 => '4', 5 => '5', 6 => '6', 7 => '7',
        8 => '8', 9 => '9', 10 => 'a', 11 => 'b', 12 => 'c', 13 => 'd', 14 => 'e', _ => 'f',
    }
}

fn push_escaped_char(out: &mut String, c: char)
    ensures
        final(out)@ == old(out)@ + esc(c),
{
    let ghost start = out@;
    if c == '"' {
        out.push('\\');
        out.push('"');
    } else if c == '\\' {
        out.push('\\');
        out.push('\\');
    } else if c == '\u{8}' {
        out.push('\\');
        out.push('b');
    } else if c == '\t' {
        out.push('\\');
        out.push('t');
    } else if c == '\n' {
        out.push('\\');
        out.push('n');
    } else if c == '\u{c}' {
        out.push('\\');
        out.push('f');
    } else if c == '\r' {
        out.push('\\');
        out.push('r');
    } else if (c as u32) < 32 {
        let n = c as u32;
        out.push('\\');
        out.push('u');
        out.push('0');
        out.push('0');
        out.push(hex_char(n / 16));
        out.push(hex_char(n % 16));
    } else {
        out.push(c);
    }
    assert(out@ =~= start + esc(c));
}

/// Appends the JSON string literal of `s`.
pub fn push_quoted(out: &mut String, s: &str)
    ensures
        final(out)@ == old(out)@ + quoted(s@),
{
    let ghost start = out@;
    let v = crate::text::chars_of(s);
    out.push('"');
    let mut i: usize = 0;
    while i < v.len()
        invariant
            v@ == s@,
            i <= v@.len(),
            out@ == start + seq!['"'] + escaped(s@.subrange(0, i as int)),
        decreases v@.len() - i,
    {
        assert(s@.subrange(0, i + 1).drop_last() =~= s@.subrange(0, i as int));
        push_escaped_char(out, v[i]);
        i = i + 1;
        assert(out@ =~= start + seq!['"'] + escaped(s@.subrange(0, i as int)));
    }
    out.push('"');
    assert(s@.subrange(0, v@.len() as int) =~= s@);
    assert(out@ =~= start + quoted(s@));
}

/// Appends the compact JSON text of `v`.
#[verifier::loop_isolation(false)]
pub fn push_compact(out: &mut String, v: &Json)
    ensures
        final(out)@ == old(out)@ + compact(v@),
    decreases v,
{
    let ghost start = out@;
    match v {
        Json::Null => out.append("null"),
        Json::Bool(b) => if *b { out.append("true") } else { out.append("false") },
        Json::Number(n) => out.append(n.text.as_str()),
        Json::Str(s) => push_quoted(out, s.as_str()),
        Json::Array(items) => {
            let ghost im = models(items@);
            proof { lemma_models_index(items@); }
            out.push('[');
            let mut i: usize = 0;
            assert(im.subrange(0, 0) =~= Seq::<JsonV>::empty());
            while i < items.len()
                invariant
                    i <= items@.len(),
                    out@ == start + seq!['['] + compact_items(im.subrange(0, i as int)),
                decreases items@.len() - i,
            {
                proof {
                    assert(im.subrange(0, i + 1).subrange(0, i as int) =~= im.subrange(0, i as int));
                    assert(decreases_to!(*v => (*v)->Array_0));
                    assert(decreases_to!((*v)->Array_0 => items@));
                    assert(decreases_to!(items@ => items@[i as int]));
                }
                if i > 0 {
                    out.push(',');
                }
                push_compact(out, &items[i]);
                i = i + 1;
                assert(out@ =~= start + seq!['['] + compact_items(im.subrange(0, i as int)));
            }
            out.push(']');
            assert(im.subrange(0, items@.len() as int) =~= im);
            assert(out@ =~= start + compact(v@));
        },
        Json::Object(m) => {
            let ghost mm = pair_models(m@);
            proof { lemma_pair_models_index(m@); }
            out.push('{');
            let mut i: usize = 0;
            assert(mm.subrange(0, 0) =~= Seq::<(Seq<char>, JsonV)>::empty());
            while i < m.len()
                invariant
                    i <= m@.len(),
                    out@ == start + seq!['{'] + compact_members(mm.subrange(0, i as int)),
                decreases m@.len() - i,
            {
                proof {
                    assert(mm.subrange(0, i + 1).subrange(0, i as int) =~= mm.subrange(0, i as int));
                    assert(decreases_to!(*v => (*v)->Object_0));
                    assert(decreases_to!((*v)->Object_0 => m@));
                    assert(decreases_to!(m@ => m@[i as int]));
                    assert(decreases_to!(m@[i as int] => m@[i as int].1));
                }
                if i > 0 {
                    out.push(',');
                }
                push_quoted(out, m[i].0.as_str());
                out.push(':');
                push_compact(out, &m[i].1);
                i = i + 1;
                assert(out@ =~= start + seq!['{'] + compact_members(mm.subrange(0, i as int)));
            }
            out.push('}');
            assert(mm.subrange(0, m@.len() as int) =~= mm);
            assert(out@ =~= start + compact(v@));
        },
    }
    proof {
        reveal_strlit("null");
        reveal_strlit("true");
        reveal_strlit("false");
    }
}

/// The compact JSON text of `v`.
pub fn to_compact(v: &Json) -> (r: String)
    ensures
        r@ == compact(v@),
{
    let mut r = String::new();
    push_compact(&mut r, v);
    assert(r@ =~= compact(v@));
    r
}

/// Appends the pretty JSON text of `v` nested at `depth`, whose indentation
/// `ind` is.
#[verifier::loop_isolation(false)]
#[verifier::rlimit(60)]
fn push_pretty(out: &mut String, v: &Json, ind: &str, Ghost(depth): Ghost<nat>)
    requires
        ind@ == indent(depth),
    ensures
        final(out)@ == old(out)@ + pretty(v@, depth),
    decreases v,
{
    let ghost start = out@;
    let mut inner = ind.to_owned();
    inner.append("  ");
    proof {
        reveal_strlit("  ");
        assert(inner@ =~= indent(depth + 1));
    }
    match v {
        Json::Array(items) => {
            if items.len() == 0 {
                out.append("[]");
                proof { reveal_strlit("[]"); }
                return;
            }
            let ghost im = models(items@);
            proof { lemma_models_index(items@); }
            out.push('[');
            let mut i: usize = 0;
            assert(im.subrange(0, 0) =~= Seq::<JsonV>::empty());
            while i < items.len()
                invariant
                    i <= items@.len(),
                    out@ == start + seq!['['] + pretty_items(im.subrange(0, i as int), depth + 1),
                decreases items@.len() - i,
            {
                proof {
                    assert(im.subrange(0, i + 1).subrange(0, i as int) =~= im.subrange(0, i as int));
                    assert(decreases_to!(*v => (*v)->Array_0));
                    assert(decreases_to!((*v)->Array_0 => items@));
                    assert(decreases_to!(items@ => items@[i as int]));
                }
                if i > 0 {
                    out.push(',');
                }
                out.push('\n');
                out.append(inner.as_str());
                push_pretty(out, &items[i], inner.as_str(), Ghost(depth + 1));
                i = i + 1;
                assert(out@ =~= start + seq!['['] + pretty_items(im.subrange(0, i as int), depth + 1));
            }
            out.push('\n');
            out.append(ind);
            out.push(']');
            assert(im.subrange(0, items@.len() as int) =~= im);
            assert(out@ =~= start + pretty(v@, depth));
        },
        Json::Object(m) => {
            if m.len() == 0 {
                out.append("{}");
                proof { reveal_strlit("{}"); }
                return;
            }
            let ghost mm = pair_models(m@);
            proof { lemma_pair_models_index(m@); }
            out.push('{');
            let mut i: usize = 0;
            assert(mm.subrange(0, 0) =~= Seq::<(Seq<char>, JsonV)>::empty());
            while i < m.len()
                invariant
                    i <= m@.len(),
                    out@ == start + seq!['{'] + pretty_members(mm.subrange(0, i as int), depth + 1),
                decreases m@.len() - i,
            {
                proof {
                    assert(mm.subrange(0, i + 1).subrange(0, i as int) =~= mm.subrange(0, i as int));
                    assert(decreases_to!(*v => (*v)->Object_0));
                    assert(decreases_to!((*v)->Object_0 => m@));
                    assert(decreases_to!(m@ => m@[i as int]));
                    assert(decreases_to!(m@[i as int] => m@[i as int].1));
                }
                if i > 0 {
                    out.push(',');
                }
                out.push('\n');
                out.append(inner.as_str());
                push_quoted(out, m[i].0.as_str());
                out.push(':');
                out.push(' ');
                push_pretty(out, &m[i].1, inner.as_str(), Ghost(depth + 1));
                i = i + 1;
                assert(out@ =~= start + seq!['{'] + pretty_members(mm.subrange(0, i as int), depth + 1));
            }
            out.push('\n');
            out.append(ind);
            out.push('}');
            assert(mm.subrange(0, m@.len() as int) =~= mm);
            assert(out@ =~= start + pretty(v@, depth));
        },
        _ => {
            push_compact(out, v);
        },
    }
}

/// The pretty JSON text of `v` (two-space indentation).
pub fn to_pretty(v: &Json) -> (r: String)
    ensures
        r@ == pretty(v@, 0),
{
    let mut r = String::new();
    assert(""@ =~= indent(0)) by { reveal_strlit(""); }
    push_pretty(&mut r, v, "", Ghost(0));
    assert(r@ =~= pretty(v@, 0));
    r
}

} // verus!
