//! A JSON reader (RFC 8259), stated as spec functions, and the law that it
//! reads the compact text of every value back as that value.
//!
//! The reader is lenient about numbers: a number is the run of characters
//! that can occur in a JSON number, and it is read as its text (the integer
//! readings that a value keeps beside the text are left out, see
//! [`plain`]).
use vstd::prelude::*;
use crate::json::JsonV;
use crate::json_text::{compact, compact_items, compact_members, esc, escaped, quoted, hex_digit, pretty, pretty_items, pretty_members, indent};
use crate::laws::{short_escape, hex4, lemma_escaped_front, lemma_hex_digit};

verus! {

/// A character that can occur in a JSON number.
pub open spec fn is_num_char(c: char) -> bool {
    ('0' <= c && c <= '9') || c == '-' || c == '+' || c == '.' || c == 'e' || c == 'E'
}

/// The end of the run of number characters from `i`.
pub open spec fn num_end(t: Seq<char>, i: int) -> int
    decreases t.len() - i,
{
    if 0 <= i < t.len() && is_num_char(t[i]) {
        num_end(t, i + 1)
    } else {
        i
    }
}

/// Reads the rest of a string literal from `i` (just after its opening
/// quote): the string and the position after the closing quote.
pub open spec fn read_str(t: Seq<char>, i: int) -> Option<(Seq<char>, int)>
    decreases t.len() - i,
{
    if i < 0 || i >= t.len() {
        None
    } else if t[i] == '"' {
        Some((Seq::empty(), i + 1))
    } else if (t[i] as int) < 32 {
        None
    } else if t[i] != '\\' {
        match read_str(t, i + 1) {
            Some((u, j)) => Some((seq![t[i]] + u, j)),
            None => None,
        }
    } else if i + 1 >= t.len() {
        None
    } else {
        match short_escape(t[i + 1]) {
            Some(c) => match read_str(t, i + 2) {
                Some((u, j)) => Some((seq![c] + u, j)),
                None => None,
            },
            None => if t[i + 1] == 'u' && i + 6 <= t.len() {
                match hex4(t.subrange(i + 2, i + 6)) {
                    Some(v) => if v < 0xD800 || v > 0xDFFF {
                        match read_str(t, i + 6) {
                            Some((u, j)) => Some((seq![v as char] + u, j)),
                            None => None,
                        }
                    } else {
                        None
                    },
                    None => None,
                }
            } else {
                None
            },
        }
    }
}

/// JSON whitespace between tokens.
pub open spec fn is_json_ws(c: char) -> bool {
    c == ' ' || c == '\n' || c == '\t' || c == '\r'
}

/// The first position from `i` that is not whitespace.
pub open spec fn skip_ws(t: Seq<char>, i: int) -> int
    decreases t.len() - i,
{
    if 0 <= i < t.len() && is_json_ws(t[i]) {
        skip_ws(t, i + 1)
    } else {
        i
    }
}

/// Reads a value starting at `i`: the value and the position after it.
pub open spec fn read_value(t: Seq<char>, i: int) -> Option<(JsonV, int)>
    decreases t.len() - i, 0int,
{
    if i < 0 || i >= t.len() {
        None
    } else if t[i] == 'n' {
        if i + 4 <= t.len() && t.subrange(i, i + 4) == "null"@ { Some((JsonV::Null, i + 4)) } else { None }
    } else if t[i] == 't' {
        if i + 4 <= t.len() && t.subrange(i, i + 4) == "true"@ { Some((JsonV::Bool(true), i + 4)) } else { None }
    } else if t[i] == 'f' {
        if i + 5 <= t.len() && t.subrange(i, i + 5) == "false"@ { Some((JsonV::Bool(false), i + 5)) } else { None }
    } else if t[i] == '"' {
        match read_str(t, i + 1) {
            Some((s, j)) => Some((JsonV::Str(s), j)),
            None => None,
        }
    } else if t[i] == '[' {
        let k = skip_ws(t, i + 1);
        if k < t.len() && t[k] == ']' {
            Some((JsonV::Array(Seq::empty()), k + 1))
        } else {
            match read_items(t, i + 1) {
                Some((vs, j)) => Some((JsonV::Array(vs), j)),
                None => None,
            }
        }
    } else if t[i] == '{' {
        let k = skip_ws(t, i + 1);
        if k < t.len() && t[k] == '}' {
            Some((JsonV::Object(Seq::empty()), k + 1))
        } else {
            match read_members(t, i + 1) {
                Some((ms, j)) => Some((JsonV::Object(ms), j)),
                None => None,
            }
        }
    } else if t[i] == '-' || ('0' <= t[i] && t[i] <= '9') {
        Some((JsonV::Number(t.subrange(i, num_end(t, i)), None, None), num_end(t, i)))
    } else {
        None
    }
}

/// Reads the items of an array from `i` up to and past its `]`.
pub open spec fn read_items(t: Seq<char>, i: int) -> Option<(Seq<JsonV>, int)>
    decreases t.len() - i, 1int,
{
    let s = skip_ws(t, i);
    if i < 0 || s < i || s >= t.len() {
        None
    } else {
        match read_value(t, s) {
            Some((v, j)) => {
                let k = skip_ws(t, j);
                if j <= s || k < j || k >= t.len() {
                    None
                } else if t[k] == ',' {
                    match read_items(t, k + 1) {
                        Some((vs, q)) => Some((seq![v] + vs, q)),
                        None => None,
                    }
                } else if t[k] == ']' {
                    Some((seq![v], k + 1))
                } else {
                    None
                }
            },
            None => None,
        }
    }
}

/// Reads the members of an object from `i` up to and past its `}`.
#[verifier::opaque]
pub open spec fn read_members(t: Seq<char>, i: int) -> Option<(Seq<(Seq<char>, JsonV)>, int)>
    decreases t.len() - i, 1int,
{
    let s = skip_ws(t, i);
    if i < 0 || s < i || s >= t.len() || t[s] != '"' {
        None
    } else {
        match read_str(t, s + 1) {
            Some((k, j)) => {
                let c = skip_ws(t, j);
                if j <= s || c < j || c >= t.len() || t[c] != ':' {
                    None
                } else {
                    let vs = skip_ws(t, c + 1);
                    if vs <= c || vs >= t.len() {
                        None
                    } else {
                        match read_value(t, vs) {
                            Some((v, m)) => {
                                let e = skip_ws(t, m);
                                if m <= vs || e < m || e >= t.len() {
                                    None
                                } else if t[e] == ',' {
                                    match read_members(t, e + 1) {
                                        Some((ms, q)) => Some((seq![(k, v)] + ms, q)),
                                        None => None,
                                    }
                                } else if t[e] == '}' {
                                    Some((seq![(k, v)], e + 1))
                                } else {
                                    None
                                }
                            },
                            None => None,
                        }
                    }
                }
            },
            None => None,
        }
    }
}

/// Reads a whole document: a value with only whitespace around it.
pub open spec fn read_document(t: Seq<char>) -> Option<JsonV> {
    match read_value(t, skip_ws(t, 0)) {
        Some((v, j)) => if skip_ws(t, j) == t.len() { Some(v) } else { None },
        None => None,
    }
}

proof fn lemma_read_str_esc(p: Seq<char>, c: char, rest: Seq<char>)
    ensures
        read_str(p + esc(c) + rest, p.len() as int) == match read_str(p + esc(c) + rest, (p.len() + esc(c).len()) as int) {
            Some((u, j)) => Some((seq![c] + u, j)),
            None => None::<(Seq<char>, int)>,
        },
{
    let t = p + esc(c) + rest;
    let i = p.len() as int;
    if c == '"' || c == '\\' || c == '\u{8}' || c == '\t' || c == '\n' || c == '\u{c}' || c == '\r' {
        assert(t[i] == '\\');
        assert(t[i + 1] == esc(c)[1]);
    } else if (c as int) < 32 {
        let n = c as int;
        lemma_hex_digit(n / 16);
        lemma_hex_digit(n % 16);
        assert(t[i] == '\\');
        assert(t[i + 1] == 'u');
        assert(t.subrange(i + 2, i + 6) =~= seq!['0', '0', hex_digit(n / 16), hex_digit(n % 16)]);
        assert(hex4(t.subrange(i + 2, i + 6)) == Some(16 * (n / 16) + n % 16));
        assert(16 * (n / 16) + n % 16 == n);
        assert((n as char) == c);
    } else {
        assert(t[i] == c);
    }
}

/// The reader reads a written string literal back, whatever follows it.
pub proof fn lemma_read_string(p: Seq<char>, s: Seq<char>, r: Seq<char>)
    ensures
        read_str(p + escaped(s) + seq!['"'] + r, p.len() as int) == Some((s, p.len() + escaped(s).len() + 1int)),
    decreases s.len(),
{
    let t = p + escaped(s) + seq!['"'] + r;
    if s.len() == 0 {
        assert(escaped(s) =~= Seq::<char>::empty());
        assert(t[p.len() as int] == '"');
    } else {
        let c = s[0];
        let s1 = s.drop_first();
        lemma_escaped_front(c, s1);
        assert(seq![c] + s1 =~= s);
        let p1 = p + esc(c);
        assert(t =~= p1 + escaped(s1) + seq!['"'] + r);
        assert(t =~= p + esc(c) + (escaped(s1) + seq!['"'] + r));
        lemma_read_str_esc(p, c, escaped(s1) + seq!['"'] + r);
        lemma_read_string(p1, s1, r);
    }
}

/// A value with the integer readings of its numbers left out: what the
/// reader can know of a value from its text.
pub open spec fn plain(v: JsonV) -> JsonV
    decreases v,
{
    match v {
        JsonV::Number(t, _, _) => JsonV::Number(t, None, None),
        JsonV::Array(items) => JsonV::Array(plain_items(items)),
        JsonV::Object(m) => JsonV::Object(plain_members(m)),
        _ => v,
    }
}

pub open spec fn plain_items(items: Seq<JsonV>) -> Seq<JsonV>
    decreases items,
{
    if items.len() == 0 {
        Seq::empty()
    } else {
        proof {
            assert(decreases_to!(items => items[0]));
            assert(decreases_to!(items => items.subrange(1, items.len() as int)));
        }
        seq![plain(items[0])] + plain_items(items.subrange(1, items.len() as int))
    }
}

pub open spec fn plain_members(m: Seq<(Seq<char>, JsonV)>) -> Seq<(Seq<char>, JsonV)>
    decreases m,
{
    if m.len() == 0 {
        Seq::empty()
    } else {
        proof {
            assert(decreases_to!(m => m[0]));
            assert(decreases_to!(m[0] => m[0].1));
            assert(decreases_to!(m => m.subrange(1, m.len() as int)));
        }
        seq![(m[0].0, plain(m[0].1))] + plain_members(m.subrange(1, m.len() as int))
    }
}

/// Number text as JSON writes it: non-empty, starting with a digit or `-`,
/// made of number characters.
pub open spec fn number_text_ok(t: Seq<char>) -> bool {
    &&& t.len() > 0
    &&& (t[0] == '-' || ('0' <= t[0] && t[0] <= '9'))
    &&& forall|i: int| 0 <= i < t.len() ==> is_num_char(#[trigger] t[i])
}

/// Every number of the value has number text.
pub open spec fn numbers_ok(v: JsonV) -> bool
    decreases v,
{
    match v {
        JsonV::Number(t, _, _) => number_text_ok(t),
        JsonV::Array(items) => items_numbers_ok(items),
        JsonV::Object(m) => members_numbers_ok(m),
        _ => true,
    }
}

pub open spec fn items_numbers_ok(items: Seq<JsonV>) -> bool
    decreases items,
{
    if items.len() == 0 {
        true
    } else {
        proof {
            assert(decreases_to!(items => items[0]));
            assert(decreases_to!(items => items.subrange(1, items.len() as int)));
        }
        numbers_ok(items[0]) && items_numbers_ok(items.subrange(1, items.len() as int))
    }
}

pub open spec fn members_numbers_ok(m: Seq<(Seq<char>, JsonV)>) -> bool
    decreases m,
{
    if m.len() == 0 {
        true
    } else {
        proof {
            assert(decreases_to!(m => m[0]));
            assert(decreases_to!(m[0] => m[0].1));
            assert(decreases_to!(m => m.subrange(1, m.len() as int)));
        }
        numbers_ok(m[0].1) && members_numbers_ok(m.subrange(1, m.len() as int))
    }
}

/// What may follow a value: nothing, or a character that cannot continue a
/// number.
pub open spec fn value_end_ok(r: Seq<char>) -> bool {
    r.len() == 0 || !is_num_char(r[0])
}

/// Text made of whitespace only.
pub open spec fn all_ws(w: Seq<char>) -> bool {
    forall|i: int| 0 <= i < w.len() ==> is_json_ws(#[trigger] w[i])
}

proof fn lemma_compact_items_front(items: Seq<JsonV>)
    requires
        items.len() >= 1,
    ensures
        compact_items(items) == compact(items[0]) + (if items.len() > 1 {
            seq![','] + compact_items(items.subrange(1, items.len() as int))
        } else {
            Seq::empty()
        }),
    decreases items.len(),
{
    let n = items.len() as int;
    let init = items.subrange(0, n - 1);
    if n == 1 {
        assert(init =~= Seq::<JsonV>::empty());
        assert(compact_items(init) =~= Seq::<char>::empty());
        assert(items[n - 1] == items[0]);
        assert(compact_items(items) =~= compact(items[0]));
    } else {
        lemma_compact_items_front(init);
        let tail = items.subrange(1, n);
        assert(init[0] == items[0]);
        assert(items[n - 1] == tail[tail.len() - 1]);
        assert(tail.subrange(0, tail.len() - 1) =~= init.subrange(1, init.len() as int));
        if n == 2 {
            assert(tail.subrange(0, 0) =~= Seq::<JsonV>::empty());
            assert(compact_items(tail) =~= compact(items[1]));
        }
        assert(compact_items(items) =~= compact(items[0]) + (seq![','] + compact_items(tail)));
    }
}

proof fn lemma_compact_members_front(m: Seq<(Seq<char>, JsonV)>)
    requires
        m.len() >= 1,
    ensures
        compact_members(m) == quoted(m[0].0) + seq![':'] + compact(m[0].1) + (if m.len() > 1 {
            seq![','] + compact_members(m.subrange(1, m.len() as int))
        } else {
            Seq::empty()
        }),
    decreases m.len(),
{
    let n = m.len() as int;
    let init = m.subrange(0, n - 1);
    if n == 1 {
        assert(init =~= Seq::<(Seq<char>, JsonV)>::empty());
        assert(compact_members(init) =~= Seq::<char>::empty());
        assert(m[n - 1] == m[0]);
        assert(compact_members(m) =~= quoted(m[0].0) + seq![':'] + compact(m[0].1));
    } else {
        lemma_compact_members_front(init);
        let tail = m.subrange(1, n);
        assert(init[0] == m[0]);
        assert(m[n - 1] == tail[tail.len() - 1]);
        assert(tail.subrange(0, tail.len() - 1) =~= init.subrange(1, init.len() as int));
        if n == 2 {
            assert(tail.subrange(0, 0) =~= Seq::<(Seq<char>, JsonV)>::empty());
            assert(compact_members(tail.subrange(0, 0)) =~= Seq::<char>::empty());
            assert(tail[0] == m[1]);
            assert(compact_members(tail) =~= quoted(m[1].0) + seq![':'] + compact(m[1].1));
        }
        assert(compact_members(m) =~= quoted(m[0].0) + seq![':'] + compact(m[0].1) + (seq![','] + compact_members(tail)));
    }
}

proof fn lemma_pretty_items_front(items: Seq<JsonV>, d: nat)
    requires
        items.len() >= 1,
    ensures
        pretty_items(items, d) == seq!['\n'] + indent(d) + pretty(items[0], d) + (if items.len() > 1 {
            seq![','] + pretty_items(items.subrange(1, items.len() as int), d)
        } else {
            Seq::empty()
        }),
    decreases items.len(),
{
    let n = items.len() as int;
    let init = items.subrange(0, n - 1);
    if n == 1 {
        assert(init =~= Seq::<JsonV>::empty());
        assert(pretty_items(init, d) =~= Seq::<char>::empty());
        assert(items[n - 1] == items[0]);
        assert(pretty_items(items, d) =~= seq!['\n'] + indent(d) + pretty(items[0], d));
    } else {
        lemma_pretty_items_front(init, d);
        let tail = items.subrange(1, n);
        assert(init[0] == items[0]);
        assert(items[n - 1] == tail[tail.len() - 1]);
        assert(tail.subrange(0, tail.len() - 1) =~= init.subrange(1, init.len() as int));
        if n == 2 {
            assert(tail.subrange(0, 0) =~= Seq::<JsonV>::empty());
            assert(pretty_items(tail.subrange(0, 0), d) =~= Seq::<char>::empty());
            assert(tail[0] == items[1]);
            assert(pretty_items(tail, d) =~= seq!['\n'] + indent(d) + pretty(items[1], d));
        }
        assert(pretty_items(items, d) =~= seq!['\n'] + indent(d) + pretty(items[0], d) + (seq![','] + pretty_items(tail, d)));
    }
}

proof fn lemma_pretty_members_front(m: Seq<(Seq<char>, JsonV)>, d: nat)
    requires
        m.len() >= 1,
    ensures
        pretty_members(m, d) == seq!['\n'] + indent(d) + quoted(m[0].0) + seq![':', ' '] + pretty(m[0].1, d) + (if m.len() > 1 {
            seq![','] + pretty_members(m.subrange(1, m.len() as int), d)
        } else {
            Seq::empty()
        }),
    decreases m.len(),
{
    let n = m.len() as int;
    let init = m.subrange(0, n - 1);
    if n == 1 {
        assert(init =~= Seq::<(Seq<char>, JsonV)>::empty());
        assert(pretty_members(init, d) =~= Seq::<char>::empty());
        assert(m[n - 1] == m[0]);
        assert(pretty_members(m, d) =~= seq!['\n'] + indent(d) + quoted(m[0].0) + seq![':', ' '] + pretty(m[0].1, d));
    } else {
        lemma_pretty_members_front(init, d);
        let tail = m.subrange(1, n);
        assert(init[0] == m[0]);
        assert(m[n - 1] == tail[tail.len() - 1]);
        assert(tail.subrange(0, tail.len() - 1) =~= init.subrange(1, init.len() as int));
        if n == 2 {
            assert(tail.subrange(0, 0) =~= Seq::<(Seq<char>, JsonV)>::empty());
            assert(pretty_members(tail.subrange(0, 0), d) =~= Seq::<char>::empty());
            assert(tail[0] == m[1]);
            assert(pretty_members(tail, d) =~= seq!['\n'] + indent(d) + quoted(m[1].0) + seq![':', ' '] + pretty(m[1].1, d));
        }
        assert(pretty_members(m, d) =~= seq!['\n'] + indent(d) + quoted(m[0].0) + seq![':', ' '] + pretty(m[0].1, d) + (seq![','] + pretty_members(tail, d)));
    }
}

proof fn lemma_num_end(p: Seq<char>, t: Seq<char>, r: Seq<char>, k: int)
    requires
        0 <= k <= t.len(),
        forall|i: int| 0 <= i < t.len() ==> is_num_char(#[trigger] t[i]),
        value_end_ok(r),
    ensures
        num_end(p + t + r, p.len() + k) == p.len() + t.len(),
    decreases t.len() - k,
{
    let w = p + t + r;
    if k < t.len() {
        assert(w[p.len() + k] == t[k]);
        lemma_num_end(p, t, r, k + 1);
    } else if r.len() > 0 {
        assert(w[(p.len() + t.len()) as int] == r[0]);
    }
}

proof fn lemma_skip(p: Seq<char>, w: Seq<char>, r: Seq<char>, k: int)
    requires
        0 <= k <= w.len(),
        all_ws(w),
        r.len() == 0 || !is_json_ws(r[0]),
    ensures
        skip_ws(p + w + r, p.len() + k) == p.len() + w.len(),
    decreases w.len() - k,
{
    let t = p + w + r;
    if k < w.len() {
        assert(t[p.len() + k] == w[k]);
        lemma_skip(p, w, r, k + 1);
    } else if r.len() > 0 {
        assert(t[(p.len() + w.len()) as int] == r[0]);
    }
}

proof fn lemma_indent(d: nat)
    ensures
        all_ws(indent(d)),
        all_ws(seq!['\n'] + indent(d)),
        (seq!['\n'] + indent(d)).len() == 1 + 2 * d,
{
    let w = seq!['\n'] + indent(d);
    assert forall|i: int| 0 <= i < w.len() implies is_json_ws(#[trigger] w[i]) by {
        if i > 0 {
            assert(w[i] == indent(d)[i - 1]);
        }
    }
}

/// The first character of a written value opens it: not whitespace, a
/// separator or a closing bracket; the pretty form opens the same way.
proof fn lemma_first(v: JsonV, d: nat)
    requires
        numbers_ok(v),
    ensures
        compact(v).len() > 0,
        pretty(v, d).len() > 0,
        pretty(v, d)[0] == compact(v)[0],
        !is_json_ws(compact(v)[0]),
        compact(v)[0] != ',' && compact(v)[0] != ']' && compact(v)[0] != '}',
{
    reveal_strlit("null");
    reveal_strlit("true");
    reveal_strlit("false");
    reveal_strlit("[]");
    reveal_strlit("{}");
}

/// The reader reads a written value back (its numbers as text), whatever
/// precedes it and whatever may follow a value.
#[verifier::spinoff_prover]
#[verifier::rlimit(80)]
pub proof fn lemma_read_compact_value(v: JsonV, p: Seq<char>, r: Seq<char>)
    requires
        numbers_ok(v),
        value_end_ok(r),
    ensures
        read_value(p + compact(v) + r, p.len() as int) == Some((plain(v), (p.len() + compact(v).len()) as int)),
    decreases v,
{
    reveal_strlit("null");
    reveal_strlit("true");
    reveal_strlit("false");
    let t = p + compact(v) + r;
    let i = p.len() as int;
    match v {
        JsonV::Null => {
            assert(t.subrange(i, i + 4) =~= "null"@);
        },
        JsonV::Bool(b) => {
            if b {
                assert(t.subrange(i, i + 4) =~= "true"@);
            } else {
                assert(t.subrange(i, i + 5) =~= "false"@);
            }
        },
        JsonV::Number(text, _, _) => {
            assert(t[i] == text[0]);
            lemma_num_end(p, text, r, 0);
            assert(t.subrange(i, i + text.len()) =~= text);
        },
        JsonV::Str(s) => {
            assert(t =~= (p + seq!['"']) + escaped(s) + seq!['"'] + r);
            lemma_read_string(p + seq!['"'], s, r);
        },
        JsonV::Array(items) => {
            if items.len() == 0 {
                assert(compact_items(items) =~= Seq::<char>::empty());
                assert(t[i + 1] == ']');
            } else {
                lemma_compact_items_front(items);
                lemma_first(items[0], 0);
                assert(t =~= (p + seq!['[']) + compact_items(items) + seq![']'] + r);
                assert(t[i + 1] == compact(items[0])[0]);
                lemma_read_compact_items(items, p + seq!['['], r);
            }
        },
        JsonV::Object(m) => {
            if m.len() == 0 {
                assert(compact_members(m) =~= Seq::<char>::empty());
                assert(t[i + 1] == '}');
            } else {
                lemma_compact_members_front(m);
                assert(t =~= (p + seq!['{']) + compact_members(m) + seq!['}'] + r);
                assert(t[i + 1] == '"');
                lemma_read_compact_members(m, p + seq!['{'], r);
            }
        },
    }
}

#[verifier::spinoff_prover]
#[verifier::rlimit(80)]
proof fn lemma_read_compact_items(items: Seq<JsonV>, p: Seq<char>, r: Seq<char>)
    requires
        items.len() >= 1,
        items_numbers_ok(items),
    ensures
        read_items(p + compact_items(items) + seq![']'] + r, p.len() as int)
            == Some((plain_items(items), p.len() + compact_items(items).len() + 1int)),
    decreases items,
{
    let n = items.len() as int;
    let tail = items.subrange(1, n);
    let t = p + compact_items(items) + seq![']'] + r;
    lemma_compact_items_front(items);
    assert(decreases_to!(items => items[0]));
    let x = items[0];
    let cx = compact(x);
    lemma_first(x, 0);
    assert(t[p.len() as int] == cx[0]);
    if n == 1 {
        assert(t =~= p + cx + (seq![']'] + r));
        lemma_read_compact_value(x, p, seq![']'] + r);
        assert(t[(p.len() + cx.len()) as int] == ']');
        assert(tail =~= Seq::<JsonV>::empty());
        assert(plain_items(tail) =~= Seq::<JsonV>::empty());
        assert(plain_items(items) =~= seq![plain(x)]);
    } else {
        let ct = compact_items(tail);
        assert(t =~= p + cx + (seq![','] + ct + seq![']'] + r));
        lemma_read_compact_value(x, p, seq![','] + ct + seq![']'] + r);
        assert(t[(p.len() + cx.len()) as int] == ',');
        assert(t =~= (p + cx + seq![',']) + ct + seq![']'] + r);
        assert(decreases_to!(items => tail));
        lemma_read_compact_items(tail, p + cx + seq![','], r);
    }
}

#[verifier::spinoff_prover]
#[verifier::rlimit(80)]
proof fn lemma_read_compact_members(m: Seq<(Seq<char>, JsonV)>, p: Seq<char>, r: Seq<char>)
    requires
        m.len() >= 1,
        members_numbers_ok(m),
    ensures
        read_members(p + compact_members(m) + seq!['}'] + r, p.len() as int)
            == Some((plain_members(m), p.len() + compact_members(m).len() + 1int)),
    decreases m,
{
    reveal(read_members);
    let n = m.len() as int;
    let tail = m.subrange(1, n);
    let t = p + compact_members(m) + seq!['}'] + r;
    lemma_compact_members_front(m);
    assert(decreases_to!(m => m[0]));
    assert(decreases_to!(m[0] => m[0].1));
    let k = m[0].0;
    let x = m[0].1;
    let cx = compact(x);
    lemma_first(x, 0);
    let after = if n == 1 { seq!['}'] + r } else { seq![','] + compact_members(tail) + seq!['}'] + r };
    assert(t =~= p + seq!['"'] + escaped(k) + seq!['"'] + (seq![':'] + cx + after));
    assert(t[p.len() as int] == '"');
    lemma_read_string(p + seq!['"'], k, seq![':'] + cx + after);
    assert(t =~= (p + seq!['"']) + escaped(k) + seq!['"'] + (seq![':'] + cx + after));
    let pk = p + seq!['"'] + escaped(k) + seq!['"'];
    assert(t[pk.len() as int] == ':');
    assert(t[(pk.len() + 1) as int] == cx[0]);
    assert(t =~= (pk + seq![':']) + cx + after);
    lemma_read_compact_value(x, pk + seq![':'], after);
    if n == 1 {
        assert(t[(pk.len() + 1 + cx.len()) as int] == '}');
        assert(tail =~= Seq::<(Seq<char>, JsonV)>::empty());
        assert(plain_members(tail) =~= Seq::<(Seq<char>, JsonV)>::empty());
        assert(plain_members(m) =~= seq![(k, plain(x))]);
    } else {
        assert(t[(pk.len() + 1 + cx.len()) as int] == ',');
        assert(t =~= (pk + seq![':'] + cx + seq![',']) + compact_members(tail) + seq!['}'] + r);
        assert(decreases_to!(m => tail));
        lemma_read_compact_members(tail, pk + seq![':'] + cx + seq![','], r);
    }
}

/// The reader reads a pretty-printed value back, at any depth.
#[verifier::spinoff_prover]
#[verifier::rlimit(100)]
pub proof fn lemma_read_pretty_value(v: JsonV, d: nat, p: Seq<char>, r: Seq<char>)
    requires
        numbers_ok(v),
        value_end_ok(r),
    ensures
        read_value(p + pretty(v, d) + r, p.len() as int) == Some((plain(v), (p.len() + pretty(v, d).len()) as int)),
    decreases v,
{
    reveal_strlit("[]");
    reveal_strlit("{}");
    let t = p + pretty(v, d) + r;
    let i = p.len() as int;
    match v {
        JsonV::Array(items) => {
            if items.len() == 0 {
                assert(t[i] == '[');
                assert(t[i + 1] == ']');
            } else {
                let w = seq!['\n'] + indent(d + 1);
                let body = pretty_items(items, d + 1);
                let close = seq!['\n'] + indent(d);
                assert(t == (p + seq!['[']) + body + close + seq![']'] + r && t[i] == '[') by {
                    assert(t =~= (p + seq!['[']) + body + close + seq![']'] + r);
                }
                assert(skip_ws(t, i + 1) == i + 1 + w.len() && t[i + 1 + w.len()] != ']' && i + 1 + w.len() < t.len()) by {
                    lemma_pretty_items_front(items, d + 1);
                    lemma_first(items[0], d + 1);
                    lemma_indent(d + 1);
                    let px0 = pretty(items[0], d + 1);
                    let more = if items.len() > 1 { seq![','] + pretty_items(items.subrange(1, items.len() as int), d + 1) } else { Seq::empty() };
                    assert(t =~= (p + seq!['[']) + w + (px0 + more + close + seq![']'] + r));
                    lemma_skip(p + seq!['['], w, px0 + more + close + seq![']'] + r, 0);
                    assert(t[i + 1 + w.len()] == px0[0]);
                }
                lemma_indent(d);
                lemma_read_pretty_items(items, d + 1, p + seq!['['], close, r);
            }
        },
        JsonV::Object(m) => {
            if m.len() == 0 {
                assert(t[i] == '{');
                assert(t[i + 1] == '}');
            } else {
                let w = seq!['\n'] + indent(d + 1);
                let body = pretty_members(m, d + 1);
                let close = seq!['\n'] + indent(d);
                assert(t == (p + seq!['{']) + body + close + seq!['}'] + r && t[i] == '{') by {
                    assert(t =~= (p + seq!['{']) + body + close + seq!['}'] + r);
                }
                assert(skip_ws(t, i + 1) == i + 1 + w.len() && t[i + 1 + w.len()] == '"' && i + 1 + w.len() < t.len()) by {
                    lemma_pretty_members_front(m, d + 1);
                    lemma_indent(d + 1);
                    let rest = body.subrange(w.len() as int, body.len() as int);
                    assert(body =~= w + rest);
                    assert(rest[0] == '"');
                    assert(t =~= (p + seq!['{']) + w + (rest + close + seq!['}'] + r));
                    lemma_skip(p + seq!['{'], w, rest + close + seq!['}'] + r, 0);
                }
                lemma_indent(d);
                lemma_read_pretty_members(m, d + 1, p + seq!['{'], close, r);
            }
        },
        _ => {
            lemma_read_compact_value(v, p, r);
        },
    }
}

#[verifier::spinoff_prover]
#[verifier::rlimit(80)]
proof fn lemma_read_pretty_items(items: Seq<JsonV>, d: nat, p: Seq<char>, w: Seq<char>, r: Seq<char>)
    requires
        items.len() >= 1,
        items_numbers_ok(items),
        all_ws(w),
    ensures
        read_items(p + pretty_items(items, d) + w + seq![']'] + r, p.len() as int)
            == Some((plain_items(items), p.len() + pretty_items(items, d).len() + w.len() + 1int)),
    decreases items,
{
    let n = items.len() as int;
    let tail = items.subrange(1, n);
    let t = p + pretty_items(items, d) + w + seq![']'] + r;
    lemma_pretty_items_front(items, d);
    lemma_indent(d);
    assert(decreases_to!(items => items[0]));
    let x = items[0];
    let px = pretty(x, d);
    lemma_first(x, d);
    let lead = seq!['\n'] + indent(d);
    let rest = if n == 1 { w + seq![']'] + r } else { seq![','] + pretty_items(tail, d) + w + seq![']'] + r };
    assert(t =~= p + lead + (px + rest));
    lemma_skip(p, lead, px + rest, 0);
    let p1 = p + lead;
    assert(t =~= p1 + px + rest);
    if n == 1 {
        assert(value_end_ok(rest)) by {
            if w.len() > 0 { assert(rest[0] == w[0]); } else { assert(rest[0] == ']'); }
        }
        lemma_read_pretty_value(x, d, p1, rest);
        assert(t =~= (p1 + px) + w + (seq![']'] + r));
        lemma_skip(p1 + px, w, seq![']'] + r, 0);
        assert(t[(p1.len() + px.len() + w.len()) as int] == ']');
        assert(tail =~= Seq::<JsonV>::empty());
        assert(plain_items(tail) =~= Seq::<JsonV>::empty());
        assert(plain_items(items) =~= seq![plain(x)]);
    } else {
        assert(rest[0] == ',');
        lemma_read_pretty_value(x, d, p1, rest);
        assert(t[(p1.len() + px.len()) as int] == ',');
        assert(t =~= (p1 + px + seq![',']) + pretty_items(tail, d) + w + seq![']'] + r);
        assert(decreases_to!(items => tail));
        lemma_read_pretty_items(tail, d, p1 + px + seq![','], w, r);
    }
}

/// The head of a pretty member: the key read back, then `:` and the space
/// before the value skipped.
proof fn lemma_member_head(p1: Seq<char>, k: Seq<char>, px: Seq<char>, rest: Seq<char>)
    requires
        px.len() > 0,
        !is_json_ws(px[0]),
    ensures
        ({
            let t = p1 + seq!['"'] + escaped(k) + seq!['"'] + seq![':', ' '] + px + rest;
            let j: int = (p1.len() + 2 + escaped(k).len()) as int;
            &&& t[p1.len() as int] == '"'
            &&& read_str(t, p1.len() + 1int) == Some((k, j))
            &&& skip_ws(t, j) == j
            &&& t[j] == ':'
            &&& skip_ws(t, j + 1) == j + 2
            &&& t == (p1 + seq!['"'] + escaped(k) + seq!['"'] + seq![':', ' ']) + px + rest
        }),
{
    let t = p1 + seq!['"'] + escaped(k) + seq!['"'] + seq![':', ' '] + px + rest;
    let j: int = (p1.len() + 2 + escaped(k).len()) as int;
    assert(t =~= (p1 + seq!['"']) + escaped(k) + seq!['"'] + (seq![':', ' '] + px + rest));
    lemma_read_string(p1 + seq!['"'], k, seq![':', ' '] + px + rest);
    assert(t[j] == ':');
    let pk = p1 + seq!['"'] + escaped(k) + seq!['"'];
    assert(t =~= (pk + seq![':']) + seq![' '] + (px + rest));
    assert(all_ws(seq![' '])) by {
        assert forall|i: int| 0 <= i < 1 implies is_json_ws(#[trigger] seq![' '][i]) by {}
    }
    lemma_skip(pk + seq![':'], seq![' '], px + rest, 0);
    assert(t =~= (p1 + seq!['"'] + escaped(k) + seq!['"'] + seq![':', ' ']) + px + rest);
}

/// One member read: the key at `s`, `:` at `j`, the value from `vs` to `mm`,
/// and then the separator or the closing brace at `e`.
proof fn lemma_read_members_step(t: Seq<char>, i: int, s: int, k: Seq<char>, j: int, vs: int, v: JsonV, mm: int, e: int)
    requires
        0 <= i <= s < t.len(),
        skip_ws(t, i) == s,
        t[s] == '"',
        read_str(t, s + 1) == Some((k, j)),
        s < j < t.len(),
        skip_ws(t, j) == j,
        t[j] == ':',
        skip_ws(t, j + 1) == vs,
        j < vs < t.len(),
        read_value(t, vs) == Some((v, mm)),
        vs < mm,
        skip_ws(t, mm) == e,
        mm <= e < t.len(),
    ensures
        t[e] == '}' ==> read_members(t, i) == Some((seq![(k, v)], e + 1)),
        t[e] == ',' ==> read_members(t, i) == match read_members(t, e + 1) {
            Some((ms, q)) => Some((seq![(k, v)] + ms, q)),
            None => None::<(Seq<(Seq<char>, JsonV)>, int)>,
        },
{
    reveal(read_members);
}

#[verifier::spinoff_prover]
#[verifier::rlimit(100)]
proof fn lemma_read_pretty_members(m: Seq<(Seq<char>, JsonV)>, d: nat, p: Seq<char>, w: Seq<char>, r: Seq<char>)
    requires
        m.len() >= 1,
        members_numbers_ok(m),
        all_ws(w),
    ensures
        read_members(p + pretty_members(m, d) + w + seq!['}'] + r, p.len() as int)
            == Some((plain_members(m), p.len() + pretty_members(m, d).len() + w.len() + 1int)),
    decreases m,
{
    let n = m.len() as int;
    let tail = m.subrange(1, n);
    let t = p + pretty_members(m, d) + w + seq!['}'] + r;
    assert(decreases_to!(m => m[0]));
    assert(decreases_to!(m[0] => m[0].1));
    let k = m[0].0;
    let x = m[0].1;
    let px = pretty(x, d);
    lemma_first(x, d);
    let lead = seq!['\n'] + indent(d);
    let rest = if n == 1 { w + seq!['}'] + r } else { seq![','] + pretty_members(tail, d) + w + seq!['}'] + r };
    let p1 = p + lead;
    let head = seq!['"'] + escaped(k) + seq!['"'] + seq![':', ' '];
    assert(t == p1 + seq!['"'] + escaped(k) + seq!['"'] + seq![':', ' '] + px + rest
        && skip_ws(t, p.len() as int) == p1.len()
        && pretty_members(m, d).len() + w.len() + 1 == lead.len() + head.len() + px.len() + rest.len() - r.len()) by {
        lemma_pretty_members_front(m, d);
        lemma_indent(d);
        assert(t =~= p + lead + (head + px + rest));
        lemma_skip(p, lead, head + px + rest, 0);
        assert(t =~= p1 + seq!['"'] + escaped(k) + seq!['"'] + seq![':', ' '] + px + rest);
    }
    lemma_member_head(p1, k, px, rest);
    let p2 = p1 + head;
    let s0 = p1.len() as int;
    let j: int = (p1.len() + 2 + escaped(k).len()) as int;
    let vs = j + 2;
    let mm = vs + px.len();
    assert(t == p2 + px + rest && vs == p2.len()) by {
        assert(p1 + seq!['"'] + escaped(k) + seq!['"'] + seq![':', ' '] =~= p2);
    }
    assert(value_end_ok(rest)) by {
        if n == 1 {
            if w.len() > 0 { assert(rest[0] == w[0]); } else { assert(rest[0] == '}'); }
        } else {
            assert(rest[0] == ',');
        }
    }
    assert(read_value(t, vs) == Some((plain(x), mm))) by {
        lemma_read_pretty_value(x, d, p2, rest);
    }
    if n == 1 {
        let e = mm + w.len();
        assert(skip_ws(t, mm) == e && t[e] == '}' && e < t.len()) by {
            assert(t =~= (p2 + px) + w + (seq!['}'] + r));
            lemma_skip(p2 + px, w, seq!['}'] + r, 0);
        }
        lemma_read_members_step(t, p.len() as int, s0, k, j, vs, plain(x), mm, e);
        assert(plain_members(m) == seq![(k, plain(x))]) by {
            assert(tail =~= Seq::<(Seq<char>, JsonV)>::empty());
            assert(plain_members(tail) =~= Seq::<(Seq<char>, JsonV)>::empty());
            assert(plain_members(m) =~= seq![(k, plain(x))]);
        }
    } else {
        assert(t[mm] == ',' && mm < t.len()) by {
            assert(rest[0] == ',');
        }
        lemma_read_members_step(t, p.len() as int, s0, k, j, vs, plain(x), mm, mm);
        let p3 = p2 + px + seq![','];
        assert(t == p3 + pretty_members(tail, d) + w + seq!['}'] + r && mm + 1 == p3.len()) by {
            assert(t =~= p3 + pretty_members(tail, d) + w + seq!['}'] + r);
        }
        assert(decreases_to!(m => tail));
        lemma_read_pretty_members(tail, d, p3, w, r);
    }
}

/// JSON is written so that a JSON reader reads it back: the compact text and
/// the pretty text of every value (whose numbers have number text) read, as
/// whole documents, as that value.
pub proof fn lemma_json_text_reads_back(v: JsonV)
    requires
        numbers_ok(v),
    ensures
        read_document(compact(v)) == Some(plain(v)),
        read_document(pretty(v, 0)) == Some(plain(v)),
{
    let e = Seq::<char>::empty();
    lemma_first(v, 0);
    lemma_read_compact_value(v, e, e);
    assert(e + compact(v) + e =~= compact(v));
    lemma_read_pretty_value(v, 0, e, e);
    assert(e + pretty(v, 0) + e =~= pretty(v, 0));
}

} // verus!
