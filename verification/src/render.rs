//! Rendering a [`Renderable`] as JSON, NDJSON, a table, or Markdown.
use vstd::prelude::*;
use crate::json::{Json, JsonV, JsonNumber, models, pair_models, obj_lookup, lemma_models_index, lemma_pair_models_index, deep_clone};
use crate::json_text::{compact, pretty, to_compact, to_pretty};
use crate::output::{Renderable, Shape, envelope, list_items};
use crate::text::{chars_of, string_of, str_eq, is_whitespace, is_ws, trim_start_seq, dec_padded, i64_text_padded, cat5, join, join_strings, string_views};
use crate::tty::Format;

verus! {

// ---------------------------------------------------------------------------
// Cell text.

/// `str::trim_start_matches(c)`: leading copies of `c` removed.
pub open spec fn strip_start_seq(s: Seq<char>, c: char) -> Seq<char>
    decreases s.len(),
{
    if s.len() > 0 && s[0] == c {
        strip_start_seq(s.drop_first(), c)
    } else {
        s
    }
}

pub open spec fn is_date_field(f: Seq<char>) -> bool {
    f == "eventdate"@ || f == "birthdate"@ || f == "deathdate"@
}

pub open spec fn member_i64(v: JsonV, k: Seq<char>) -> Option<i64> {
    match v.get(k) {
        Some(x) => x.as_i64(),
        None => None,
    }
}

/// Display form of a field's value: a date object `{day, month, year}` becomes
/// `DD-MM-YYYY`; a `personname` loses its leading `#` marks and whitespace.
pub open spec fn humanise(field: Seq<char>, v: JsonV) -> JsonV {
    if is_date_field(field) && v is Object {
        match (member_i64(v, "day"@), member_i64(v, "month"@), member_i64(v, "year"@)) {
            (Some(d), Some(m), Some(y)) => JsonV::Str(
                dec_padded(d as int, 2) + "-"@ + dec_padded(m as int, 2) + "-"@ + dec_padded(y as int, 4),
            ),
            _ => v,
        }
    } else if field == "personname"@ && v is Str {
        JsonV::Str(trim_start_seq(strip_start_seq(v->Str_0, '#')))
    } else {
        v
    }
}

fn strip_start_index(v: &[char], c: char) -> (r: usize)
    ensures
        r <= v@.len(),
        v@.subrange(r as int, v@.len() as int) == strip_start_seq(v@, c),
{
    let mut a: usize = 0;
    assert(v@.subrange(0, v@.len() as int) =~= v@);
    while a < v.len() && v[a] == c
        invariant
            a <= v@.len(),
            strip_start_seq(v@, c) == strip_start_seq(v@.subrange(a as int, v@.len() as int), c),
        decreases v@.len() - a,
    {
        assert(v@.subrange(a as int, v@.len() as int).drop_first() =~= v@.subrange(a + 1, v@.len() as int));
        a = a + 1;
    }
    a
}

fn trim_start_index(v: &[char], from: usize) -> (r: usize)
    requires
        from <= v@.len(),
    ensures
        from <= r <= v@.len(),
        v@.subrange(r as int, v@.len() as int) == trim_start_seq(v@.subrange(from as int, v@.len() as int)),
{
    let mut a: usize = from;
    while a < v.len() && is_whitespace(v[a])
        invariant
            from <= a <= v@.len(),
            trim_start_seq(v@.subrange(from as int, v@.len() as int)) == trim_start_seq(v@.subrange(a as int, v@.len() as int)),
        decreases v@.len() - a,
    {
        assert(v@.subrange(a as int, v@.len() as int).drop_first() =~= v@.subrange(a + 1, v@.len() as int));
        a = a + 1;
    }
    a
}

/// The display form of `v` under the field name `field` (see [`humanise`]).
pub fn humanise_value(field: &str, v: Json) -> (r: Json)
    ensures
        r@ == humanise(field@, v@),
{
    let is_date = str_eq(field, "eventdate") || str_eq(field, "birthdate") || str_eq(field, "deathdate");
    if is_date {
        if let Json::Object(_) = &v {
            let d = match v.get("day") { Some(x) => x.as_i64(), None => None };
            let m = match v.get("month") { Some(x) => x.as_i64(), None => None };
            let y = match v.get("year") { Some(x) => x.as_i64(), None => None };
            match (d, m, y) {
                (Some(d), Some(m), Some(y)) => {
                    let ds = i64_text_padded(d, 2);
                    let ms = i64_text_padded(m, 2);
                    let ys = i64_text_padded(y, 4);
                    let s = cat5(ds.as_str(), "-", ms.as_str(), "-", ys.as_str());
                    return Json::Str(s);
                },
                _ => {
                    return v;
                },
            }
        }
    }
    if str_eq(field, "personname") {
        if let Json::Str(s) = &v {
            let chars = chars_of(s.as_str());
            let a = strip_start_index(&chars, '#');
            let b = trim_start_index(&chars, a);
            let t = string_of(&chars, b, chars.len());
            assert(chars@.subrange(a as int, chars@.len() as int) == strip_start_seq(s@, '#'));
            return Json::Str(t);
        }
    }
    v
}

/// At most `max` characters: longer text keeps its first `max - 1` characters
/// and gains an ellipsis.
pub open spec fn truncated(s: Seq<char>, max: nat) -> Seq<char> {
    if s.len() <= max {
        s
    } else {
        s.subrange(0, if max >= 1 { max - 1 } else { 0 }) + seq!['…']
    }
}

pub fn truncate(s: &str, max: usize) -> (r: String)
    ensures
        r@ == truncated(s@, max as nat),
{
    let n = s.unicode_len();
    if n <= max {
        s.to_owned()
    } else {
        let v = chars_of(s);
        let keep: usize = if max >= 1 { max - 1 } else { 0 };
        let mut r = string_of(&v, 0, keep);
        r.push('…');
        r
    }
}

/// Pipes escaped as `\|`, newlines turned into spaces.
pub open spec fn md_escape(s: Seq<char>) -> Seq<char>
    decreases s.len(),
{
    if s.len() == 0 {
        Seq::empty()
    } else {
        md_escape(s.drop_last()) + (if s.last() == '|' {
            seq!['\\', '|']
        } else if s.last() == '\n' {
            seq![' ']
        } else {
            seq![s.last()]
        })
    }
}

/// Pipes escaped as `\|`.
pub open spec fn pipe_escape(s: Seq<char>) -> Seq<char>
    decreases s.len(),
{
    if s.len() == 0 {
        Seq::empty()
    } else {
        pipe_escape(s.drop_last()) + (if s.last() == '|' { seq!['\\', '|'] } else { seq![s.last()] })
    }
}

fn escape_cell(s: &str, newlines: bool) -> (r: String)
    ensures
        r@ == if newlines { md_escape(s@) } else { pipe_escape(s@) },
{
    let v = chars_of(s);
    let mut r = String::new();
    let mut i: usize = 0;
    while i < v.len()
        invariant
            v@ == s@,
            i <= v@.len(),
            r@ == if newlines { md_escape(s@.subrange(0, i as int)) } else { pipe_escape(s@.subrange(0, i as int)) },
        decreases v@.len() - i,
    {
        assert(s@.subrange(0, i + 1).drop_last() =~= s@.subrange(0, i as int));
        let c = v[i];
        if c == '|' {
            r.push('\\');
            r.push('|');
        } else if newlines && c == '\n' {
            r.push(' ');
        } else {
            r.push(c);
        }
        i = i + 1;
        assert(r@ =~= if newlines { md_escape(s@.subrange(0, i as int)) } else { pipe_escape(s@.subrange(0, i as int)) });
    }
    assert(s@.subrange(0, v@.len() as int) =~= s@);
    r
}

/// The Markdown cell text of a value.
pub open spec fn md_cell_text(v: JsonV) -> Seq<char> {
    match v {
        JsonV::Null => Seq::empty(),
        JsonV::Str(s) => md_escape(s),
        JsonV::Object(_) | JsonV::Array(_) => truncated(pipe_escape(compact(v)), 200),
        _ => compact(v),
    }
}

pub fn md_cell(v: &Json) -> (r: String)
    ensures
        r@ == md_cell_text(v@),
{
    match v {
        Json::Null => String::new(),
        Json::Str(s) => escape_cell(s.as_str(), true),
        Json::Object(_) | Json::Array(_) => {
            let c = to_compact(v);
            let e = escape_cell(c.as_str(), false);
            truncate(e.as_str(), 200)
        },
        _ => to_compact(v),
    }
}


// ---------------------------------------------------------------------------
// Tables.

pub open spec fn obj_keys(o: Seq<(Seq<char>, JsonV)>) -> Seq<Seq<char>> {
    Seq::new(o.len(), |i: int| o[i].0)
}

/// Column headers of a non-empty list: the keys of its first item when that is
/// an object, otherwise a single `value` column.
pub open spec fn list_headers(items: Seq<JsonV>) -> Seq<Seq<char>> {
    match items[0] {
        JsonV::Object(o) => obj_keys(o),
        _ => seq!["value"@],
    }
}

pub open spec fn member_or_null(o: Seq<(Seq<char>, JsonV)>, k: Seq<char>) -> JsonV {
    match obj_lookup(o, k) {
        Some(x) => x,
        None => JsonV::Null,
    }
}

/// A list cell: the humanised value's text (strings unquoted, other values as
/// compact JSON), at most 80 characters.
pub open spec fn list_cell(h: Seq<char>, v: JsonV) -> Seq<char> {
    match humanise(h, v) {
        JsonV::Str(s) => truncated(s, 80),
        other => truncated(compact(other), 80),
    }
}

pub open spec fn list_row(headers: Seq<Seq<char>>, item: JsonV) -> Seq<Seq<char>> {
    match item {
        JsonV::Object(o) => Seq::new(headers.len(), |j: int| list_cell(headers[j], member_or_null(o, headers[j]))),
        JsonV::Null => seq![Seq::empty()],
        other => seq![truncated(compact(other), 80)],
    }
}

/// A key/value row of a single record.
pub open spec fn single_row(k: Seq<char>, v: JsonV) -> Seq<Seq<char>> {
    let hv = humanise(k, v);
    seq![k, match hv {
        JsonV::Str(s) => truncated(s, 80),
        JsonV::Object(_) | JsonV::Array(_) => truncated(compact(hv), 80),
        other => compact(other),
    }]
}

/// Header and rows of the table for a renderable; `None` for an empty list.
pub open spec fn table_of(shape: Shape, body: JsonV) -> Option<(Seq<Seq<char>>, Seq<Seq<Seq<char>>>)> {
    match shape {
        Shape::List => {
            let items = list_items(body);
            if items.len() == 0 {
                None
            } else {
                let h = list_headers(items);
                Some((h, Seq::new(items.len(), |i: int| list_row(h, items[i]))))
            }
        },
        _ => Some((seq!["key"@, "value"@], match body {
            JsonV::Object(o) => Seq::new(o.len(), |i: int| single_row(o[i].0, o[i].1)),
            _ => Seq::empty(),
        })),
    }
}

pub open spec fn row_views(rows: Seq<Vec<String>>) -> Seq<Seq<Seq<char>>> {
    Seq::new(rows.len(), |i: int| string_views(rows[i]@))
}

fn cell_of_value(h: &str, v: &Json) -> (r: String)
    ensures
        r@ == list_cell(h@, v@),
{
    let hv = humanise_value(h, deep_clone(v));
    match &hv {
        Json::Str(s) => truncate(s.as_str(), 80),
        _ => {
            let c = to_compact(&hv);
            truncate(c.as_str(), 80)
        },
    }
}

fn list_row_cells(headers: &Vec<String>, item: &Json) -> (r: Vec<String>)
    ensures
        string_views(r@) == list_row(string_views(headers@), item@),
{
    let mut r: Vec<String> = Vec::new();
    match item {
        Json::Object(o) => {
            let ghost hv = string_views(headers@);
            let mut j: usize = 0;
            while j < headers.len()
                invariant
                    j <= headers@.len(),
                    hv == string_views(headers@),
                    item@ == JsonV::Object(pair_models(o@)),
                    string_views(r@) == Seq::new(j as nat, |x: int| list_cell(hv[x], member_or_null(pair_models(o@), hv[x]))),
                decreases headers@.len() - j,
            {
                let h = headers[j].as_str();
                let c = match item.get(h) {
                    Some(x) => cell_of_value(h, x),
                    None => cell_of_value(h, &Json::Null),
                };
                let ghost old_r = r@;
                r.push(c);
                assert(string_views(r@) =~= string_views(old_r).push(c@));
                assert(hv[j as int] == h@);
                j = j + 1;
                assert(string_views(r@) =~= Seq::new(j as nat, |x: int| list_cell(hv[x], member_or_null(pair_models(o@), hv[x]))));
            }
        },
        Json::Null => {
            r.push(String::new());
            assert(string_views(r@) =~= seq![Seq::<char>::empty()]);
        },
        _ => {
            let c = to_compact(item);
            r.push(truncate(c.as_str(), 80));
            assert(string_views(r@) =~= list_row(string_views(headers@), item@));
        },
    }
    r
}

/// The header and rows of the table (`None` for an empty list).
pub fn table_cells(r: &Renderable) -> (res: Option<(Vec<String>, Vec<Vec<String>>)>)
    ensures
        match res {
            Some((h, rows)) => table_of(r.shape, r.body@) == Some((string_views(h@), row_views(rows@))),
            None => table_of(r.shape, r.body@) is None,
        },
{
    match r.shape {
        Shape::List => {
            let items: &Vec<Json> = match &r.body {
                Json::Array(v) => v,
                _ => {
                    return None;
                },
            };
            proof {
                lemma_models_index(items@);
            }
            if items.len() == 0 {
                return None;
            }
            let mut headers: Vec<String> = Vec::new();
            match &items[0] {
                Json::Object(o) => {
                    proof {
                        lemma_pair_models_index(o@);
                    }
                    let mut k: usize = 0;
                    while k < o.len()
                        invariant
                            k <= o@.len(),
                            pair_models(o@).len() == o@.len(),
                            forall|x: int| 0 <= x < o@.len() ==> #[trigger] pair_models(o@)[x] == (o@[x].0@, o@[x].1.model()),
                            string_views(headers@) == obj_keys(pair_models(o@)).subrange(0, k as int),
                        decreases o@.len() - k,
                    {
                        let ghost old_h = headers@;
                        let key = o[k].0.clone();
                        headers.push(key);
                        assert(string_views(headers@) =~= string_views(old_h).push(o@[k as int].0@));
                        assert(obj_keys(pair_models(o@))[k as int] == o@[k as int].0@);
                        k = k + 1;
                        assert(string_views(headers@) =~= obj_keys(pair_models(o@)).subrange(0, k as int));
                    }
                    assert(obj_keys(pair_models(o@)).subrange(0, o@.len() as int) =~= obj_keys(pair_models(o@)));
                },
                _ => {
                    headers.push("value".to_owned());
                    assert(string_views(headers@) =~= seq!["value"@]);
                },
            }
            let ghost h = string_views(headers@);
            assert(h == list_headers(models(items@)));
            let mut rows: Vec<Vec<String>> = Vec::new();
            let mut i: usize = 0;
            while i < items.len()
                invariant
                    i <= items@.len(),
                    models(items@).len() == items@.len(),
                    forall|x: int| 0 <= x < items@.len() ==> #[trigger] models(items@)[x] == items@[x].model(),
                    h == string_views(headers@),
                    row_views(rows@) == Seq::new(i as nat, |x: int| list_row(h, models(items@)[x])),
                decreases items@.len() - i,
            {
                let row = list_row_cells(&headers, &items[i]);
                let ghost old_rows = rows@;
                let ghost rv = string_views(row@);
                rows.push(row);
                assert(row_views(rows@) =~= row_views(old_rows).push(rv));
                i = i + 1;
                assert(row_views(rows@) =~= Seq::new(i as nat, |x: int| list_row(h, models(items@)[x])));
            }
            Some((headers, rows))
        },
        _ => {
            let mut headers: Vec<String> = Vec::new();
            headers.push("key".to_owned());
            headers.push("value".to_owned());
            assert(string_views(headers@) =~= seq!["key"@, "value"@]);
            let mut rows: Vec<Vec<String>> = Vec::new();
            match &r.body {
                Json::Object(o) => {
                    proof {
                        lemma_pair_models_index(o@);
                    }
                    let ghost om = pair_models(o@);
                    let mut i: usize = 0;
                    while i < o.len()
                        invariant
                            i <= o@.len(),
                            om == pair_models(o@),
                            om.len() == o@.len(),
                            forall|x: int| 0 <= x < o@.len() ==> #[trigger] om[x] == (o@[x].0@, o@[x].1.model()),
                            row_views(rows@) == Seq::new(i as nat, |x: int| single_row(om[x].0, om[x].1)),
                        decreases o@.len() - i,
                    {
                        let k = o[i].0.as_str();
                        let hv = humanise_value(k, deep_clone(&o[i].1));
                        let cell = match &hv {
                            Json::Str(s) => truncate(s.as_str(), 80),
                            Json::Object(_) | Json::Array(_) => {
                                let c = to_compact(&hv);
                                truncate(c.as_str(), 80)
                            },
                            _ => to_compact(&hv),
                        };
                        let mut row: Vec<String> = Vec::new();
                        row.push(k.to_owned());
                        row.push(cell);
                        assert(string_views(row@) =~= single_row(om[i as int].0, om[i as int].1));
                        let ghost old_rows = rows@;
                        let ghost rv = string_views(row@);
                        rows.push(row);
                        assert(row_views(rows@) =~= row_views(old_rows).push(rv));
                        i = i + 1;
                        assert(row_views(rows@) =~= Seq::new(i as nat, |x: int| single_row(om[x].0, om[x].1)));
                    }
                },
                _ => {
                    assert(row_views(rows@) =~= Seq::<Seq<Seq<char>>>::empty());
                },
            }
            Some((headers, rows))
        },
    }
}

/// The text that `comfy_table` lays out for these header cells, rows and
/// width, with UTF-8 borders, dynamic content arrangement and no terminal
/// detection. It depends on those three alone.
pub uninterp spec fn table_layout(headers: Seq<Seq<char>>, rows: Seq<Seq<Seq<char>>>, width: Option<u16>) -> Seq<char>;

/// Calls `comfy_table::Table`'s `Display` after `load_preset(UTF8_FULL)`,
/// `set_content_arrangement(Dynamic)`, `force_no_tty()`, `set_width(w)` when a
/// width is given, `set_header` and one `add_row` per row. No cell carries a
/// style and no terminal is consulted, so the text is a function of the
/// header, the rows and the width, named [`table_layout`]; what that layout
/// is (wrapping, column widths) is `comfy_table`'s and is not spelled out here.
#[verifier::external_body]
fn table_text(headers: &Vec<String>, rows: &Vec<Vec<String>>, width: Option<u16>) -> (r: String)
    ensures
        r@ == table_layout(string_views(headers@), row_views(rows@), width),
{
    let mut t = comfy_table::Table::new();
    t.load_preset(comfy_table::presets::UTF8_FULL).set_content_arrangement(comfy_table::ContentArrangement::Dynamic);
    t.force_no_tty();
    if let Some(w) = width {
        t.set_width(w);
    }
    t.set_header(headers.iter());
    for row in rows {
        t.add_row(row.iter());
    }
    format!("{t}")
}

/// Calls `comfy_table::Table::new().width()`: the width of the terminal on
/// standard output, or `None` where standard output is no terminal or its
/// size cannot be read. It depends on the process's environment, so nothing
/// is stated of it.
#[verifier::external_body]
fn terminal_width() -> Option<u16> {
    comfy_table::Table::new().width()
}


// ---------------------------------------------------------------------------
// Markdown.

pub open spec fn md_line(cells: Seq<Seq<char>>) -> Seq<char> {
    "| "@ + join(cells, " | "@) + " |\n"@
}

pub open spec fn dashes(n: nat) -> Seq<Seq<char>> {
    Seq::new(n, |i: int| "---"@)
}

pub open spec fn md_list_cells(headers: Seq<Seq<char>>, item: JsonV) -> Seq<Seq<char>> {
    match item {
        JsonV::Object(o) => Seq::new(headers.len(), |j: int| md_cell_text(humanise(headers[j], member_or_null(o, headers[j])))),
        other => seq![md_cell_text(other)],
    }
}

pub open spec fn md_rows(headers: Seq<Seq<char>>, items: Seq<JsonV>) -> Seq<char>
    decreases items.len(),
{
    if items.len() == 0 {
        Seq::empty()
    } else {
        md_rows(headers, items.drop_last()) + md_line(md_list_cells(headers, items.last()))
    }
}

pub open spec fn md_flat(o: Seq<(Seq<char>, JsonV)>) -> Seq<char>
    decreases o.len(),
{
    if o.len() == 0 {
        Seq::empty()
    } else {
        md_flat(o.drop_last()) + "- **"@ + o.last().0 + "**: "@ + md_cell_text(humanise(o.last().0, o.last().1)) + "\n"@
    }
}

pub open spec fn md_nested_member(k: Seq<char>, v: JsonV) -> Seq<char> {
    let hv = humanise(k, v);
    if hv is Object || hv is Array {
        "- **"@ + k + "**:\n```json\n"@ + pretty(hv, 0) + "\n```\n"@
    } else {
        "- **"@ + k + "**: "@ + md_cell_text(hv) + "\n"@
    }
}

pub open spec fn md_nested(o: Seq<(Seq<char>, JsonV)>) -> Seq<char>
    decreases o.len(),
{
    if o.len() == 0 {
        Seq::empty()
    } else {
        md_nested(o.drop_last()) + md_nested_member(o.last().0, o.last().1)
    }
}

/// The Markdown rendering: a pipe table for lists, a bullet list of members
/// for single records (nested values as fenced JSON).
pub open spec fn markdown(shape: Shape, body: JsonV) -> Seq<char> {
    match shape {
        Shape::List => {
            let items = list_items(body);
            if items.len() == 0 {
                "_(no results)_\n"@
            } else {
                let h = list_headers(items);
                md_line(h) + md_line(dashes(h.len())) + md_rows(h, items)
            }
        },
        Shape::SingleFlat => match body {
            JsonV::Object(o) => md_flat(o),
            _ => Seq::empty(),
        },
        Shape::SingleNested => match body {
            JsonV::Object(o) => md_nested(o),
            _ => Seq::empty(),
        },
    }
}

fn push_md_line(out: &mut String, cells: &Vec<String>)
    ensures
        final(out)@ == old(out)@ + md_line(string_views(cells@)),
{
    let j = join_strings(cells, " | ");
    out.append("| ");
    out.append(j.as_str());
    out.append(" |\n");
}

fn md_cells_of(headers: &Vec<String>, item: &Json) -> (r: Vec<String>)
    ensures
        string_views(r@) == md_list_cells(string_views(headers@), item@),
{
    let mut r: Vec<String> = Vec::new();
    match item {
        Json::Object(o) => {
            let ghost hv = string_views(headers@);
            let mut j: usize = 0;
            while j < headers.len()
                invariant
                    j <= headers@.len(),
                    hv == string_views(headers@),
                    item@ == JsonV::Object(pair_models(o@)),
                    string_views(r@) == Seq::new(j as nat, |x: int| md_cell_text(humanise(hv[x], member_or_null(pair_models(o@), hv[x])))),
                decreases headers@.len() - j,
            {
                let h = headers[j].as_str();
                let v = match item.get(h) {
                    Some(x) => deep_clone(x),
                    None => Json::Null,
                };
                let hvv = humanise_value(h, v);
                let c = md_cell(&hvv);
                let ghost old_r = r@;
                r.push(c);
                assert(string_views(r@) =~= string_views(old_r).push(c@));
                assert(hv[j as int] == h@);
                j = j + 1;
                assert(string_views(r@) =~= Seq::new(j as nat, |x: int| md_cell_text(humanise(hv[x], member_or_null(pair_models(o@), hv[x])))));
            }
        },
        _ => {
            let c = md_cell(item);
            r.push(c);
            assert(string_views(r@) =~= seq![c@]);
        },
    }
    r
}

fn push_nested_member(out: &mut String, k: &str, v: &Json)
    ensures
        final(out)@ == old(out)@ + md_nested_member(k@, v@),
{
    let hv = humanise_value(k, deep_clone(v));
    match &hv {
        Json::Object(_) | Json::Array(_) => {
            let p = to_pretty(&hv);
            out.append("- **");
            out.append(k);
            out.append("**:\n```json\n");
            out.append(p.as_str());
            out.append("\n```\n");
        },
        _ => {
            let c = md_cell(&hv);
            out.append("- **");
            out.append(k);
            out.append("**: ");
            out.append(c.as_str());
            out.append("\n");
        },
    }
}

fn push_markdown(out: &mut String, r: &Renderable)
    ensures
        final(out)@ == old(out)@ + markdown(r.shape, r.body@),
{
    let ghost start = out@;
    match r.shape {
        Shape::List => {
            let cells = table_cells(r);
            let items: &Vec<Json> = match &r.body {
                Json::Array(v) => v,
                _ => {
                    out.append("_(no results)_\n");
                    return;
                },
            };
            proof {
                lemma_models_index(items@);
            }
            if items.len() == 0 {
                out.append("_(no results)_\n");
                return;
            }
            let headers = match cells {
                Some((h, _rows)) => h,
                None => Vec::new(),
            };
            let ghost h = string_views(headers@);
            push_md_line(out, &headers);
            let mut d: Vec<String> = Vec::new();
            let mut k: usize = 0;
            while k < headers.len()
                invariant
                    k <= headers@.len(),
                    string_views(d@) == dashes(k as nat),
                decreases headers@.len() - k,
            {
                let ghost old_d = d@;
                d.push("---".to_owned());
                assert(string_views(d@) =~= string_views(old_d).push("---"@));
                k = k + 1;
                assert(string_views(d@) =~= dashes(k as nat));
            }
            push_md_line(out, &d);
            let ghost mid = out@;
            let mut i: usize = 0;
            assert(models(items@).subrange(0, 0) =~= Seq::<JsonV>::empty());
            while i < items.len()
                invariant
                    i <= items@.len(),
                    models(items@).len() == items@.len(),
                    forall|x: int| 0 <= x < items@.len() ==> #[trigger] models(items@)[x] == items@[x].model(),
                    h == string_views(headers@),
                    out@ == mid + md_rows(h, models(items@).subrange(0, i as int)),
                decreases items@.len() - i,
            {
                assert(models(items@).subrange(0, i + 1).drop_last() =~= models(items@).subrange(0, i as int));
                let row = md_cells_of(&headers, &items[i]);
                push_md_line(out, &row);
                i = i + 1;
            }
            assert(models(items@).subrange(0, items@.len() as int) =~= models(items@));
        },
        Shape::SingleFlat => {
            if let Json::Object(o) = &r.body {
                proof {
                    lemma_pair_models_index(o@);
                }
                let ghost om = pair_models(o@);
                let mut i: usize = 0;
                assert(om.subrange(0, 0) =~= Seq::<(Seq<char>, JsonV)>::empty());
                while i < o.len()
                    invariant
                        i <= o@.len(),
                        om == pair_models(o@),
                        om.len() == o@.len(),
                        forall|x: int| 0 <= x < o@.len() ==> #[trigger] om[x] == (o@[x].0@, o@[x].1.model()),
                        out@ == start + md_flat(om.subrange(0, i as int)),
                    decreases o@.len() - i,
                {
                    assert(om.subrange(0, i + 1).drop_last() =~= om.subrange(0, i as int));
                    let k = o[i].0.as_str();
                    let hv = humanise_value(k, deep_clone(&o[i].1));
                    let c = md_cell(&hv);
                    out.append("- **");
                    out.append(k);
                    out.append("**: ");
                    out.append(c.as_str());
                    out.append("\n");
                    i = i + 1;
                }
                assert(om.subrange(0, o@.len() as int) =~= om);
            } else {
                assert(out@ =~= start + markdown(r.shape, r.body@));
            }
        },
        Shape::SingleNested => {
            if let Json::Object(o) = &r.body {
                proof {
                    lemma_pair_models_index(o@);
                }
                let ghost om = pair_models(o@);
                let mut i: usize = 0;
                assert(om.subrange(0, 0) =~= Seq::<(Seq<char>, JsonV)>::empty());
                while i < o.len()
                    invariant
                        i <= o@.len(),
                        om == pair_models(o@),
                        om.len() == o@.len(),
                        forall|x: int| 0 <= x < o@.len() ==> #[trigger] om[x] == (o@[x].0@, o@[x].1.model()),
                        out@ == start + md_nested(om.subrange(0, i as int)),
                    decreases o@.len() - i,
                {
                    assert(om.subrange(0, i + 1).drop_last() =~= om.subrange(0, i as int));
                    push_nested_member(out, o[i].0.as_str(), &o[i].1);
                    i = i + 1;
                }
                assert(om.subrange(0, o@.len() as int) =~= om);
            } else {
                assert(out@ =~= start + markdown(r.shape, r.body@));
            }
        },
    }
}

// ---------------------------------------------------------------------------
// The whole output.

pub open spec fn ndjson(items: Seq<JsonV>) -> Seq<char>
    decreases items.len(),
{
    if items.len() == 0 {
        Seq::empty()
    } else {
        ndjson(items.drop_last()) + compact(items.last()) + "\n"@
    }
}

/// The JSON document written for a renderable: the list wrapper for lists,
/// the body itself otherwise.
pub open spec fn json_document(r: Renderable) -> JsonV {
    match r.shape {
        Shape::List => envelope(list_items(r.body@), r.total, r.limit, r.offset, r.paginated),
        _ => r.body@,
    }
}

/// The rendered text, for every format but a `table` with rows (whose
/// layout is [`table_layout`]'s).
pub open spec fn rendered(r: Renderable, fmt: Format, pretty_json: bool) -> Seq<char> {
    match fmt {
        Format::Json => (if pretty_json { pretty(json_document(r), 0) } else { compact(json_document(r)) }) + "\n"@,
        Format::Ndjson => match r.body@ {
            JsonV::Array(items) => ndjson(items),
            _ => Seq::empty(),
        },
        Format::Markdown => markdown(r.shape, r.body@),
        Format::Table => "(no results)\n"@,
    }
}

/// The rendered text when a table is laid out for `width` columns.
pub open spec fn rendered_at(r: Renderable, fmt: Format, pretty_json: bool, width: Option<u16>) -> Seq<char> {
    match fmt {
        Format::Table => match table_of(r.shape, r.body@) {
            Some((h, rows)) => table_layout(h, rows, width) + "\n"@,
            None => "(no results)\n"@,
        },
        _ => rendered(r, fmt, pretty_json),
    }
}

/// Renders `r` in the requested format, laying a table out for `width`
/// columns. For `table`, an empty list gives `(no results)`; otherwise the
/// header and rows of [`table_cells`] are laid out.
pub fn render_at_width(r: &Renderable, fmt: Format, pretty_json: bool, width: Option<u16>) -> (out: String)
    ensures
        out@ == rendered_at(*r, fmt, pretty_json, width),
{
    let mut out = String::new();
    match fmt {
        Format::Json => {
            let doc = match r.shape {
                Shape::List => r.list_envelope(r.total),
                _ => deep_clone(&r.body),
            };
            let text = if pretty_json { to_pretty(&doc) } else { to_compact(&doc) };
            out.append(text.as_str());
            out.append("\n");
        },
        Format::Ndjson => {
            if let Json::Array(items) = &r.body {
                proof {
                    lemma_models_index(items@);
                }
                let mut i: usize = 0;
                assert(models(items@).subrange(0, 0) =~= Seq::<JsonV>::empty());
                while i < items.len()
                    invariant
                        i <= items@.len(),
                        models(items@).len() == items@.len(),
                        forall|x: int| 0 <= x < items@.len() ==> #[trigger] models(items@)[x] == items@[x].model(),
                        out@ == ndjson(models(items@).subrange(0, i as int)),
                    decreases items@.len() - i,
                {
                    assert(models(items@).subrange(0, i + 1).drop_last() =~= models(items@).subrange(0, i as int));
                    let line = to_compact(&items[i]);
                    out.append(line.as_str());
                    out.append("\n");
                    i = i + 1;
                }
                assert(models(items@).subrange(0, items@.len() as int) =~= models(items@));
            } else {
                assert(out@ =~= Seq::<char>::empty());
            }
        },
        Format::Table => {
            match table_cells(r) {
                Some((h, rows)) => {
                    let t = table_text(&h, &rows, width);
                    out.append(t.as_str());
                    out.append("\n");
                },
                None => {
                    out.append("(no results)\n");
                },
            }
        },
        Format::Markdown => {
            push_markdown(&mut out, r);
            assert(out@ =~= markdown(r.shape, r.body@));
        },
    }
    out
}

/// Renders `r` in the requested format; a table is laid out for the width
/// of the terminal on standard output, where there is one.
pub fn render(r: &Renderable, fmt: Format, pretty_json: bool) -> (out: String)
    ensures
        exists|w: Option<u16>| out@ == rendered_at(*r, fmt, pretty_json, w),
        fmt != Format::Table ==> out@ == rendered(*r, fmt, pretty_json),
        fmt == Format::Table && table_of(r.shape, r.body@) is None ==> out@ == rendered(*r, fmt, pretty_json),
{
    let w = terminal_width();
    render_at_width(r, fmt, pretty_json, w)
}

} // verus!
