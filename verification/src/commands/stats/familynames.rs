//! `stats familynames`: family-name frequencies by place, year range and
//! event type.
use vstd::prelude::*;
use crate::commands::{ApiRequest, LimitIssue, RequestV, array_at, array_count, items_at, lang_choice_error, lang_choice_message, limit_check, opt_int_pair, opt_pair, pick_limit, planned, push_opt, push_opt_int, push_pair, u32_text};
use crate::commands::event_records::{next_value, next_value_of};
use crate::commands::stats::{check_year_span, event_type_ok, is_event_type, year_span_issue};
use crate::cache::pair_views;
use crate::client::TtlHint;
use crate::error::{Error, ErrorKind, Result};
use crate::json::{Json, JsonV, models};
use crate::output::{Renderable, Shape};
use crate::runtime::{ApiContext, resolve_ttl, ttl_of, verr};
use crate::schema_cmd::{Arg, Command, OutputField, int_values, str_values, ArgV, arg_view, arg_views, field_views, int_json, option_json};
use crate::span::TimeSpan;
use crate::text::{cat2, cat3, chars_of, debug_str, debug_text, dec, dec_int, i64_text, is_prefix, parse_i32, parse_int_spec, str_eq, str_in, string_of, string_views, strip_prefix, views, find_char};

verus! {

pub const MIN_YEAR: i32 = 1500;
pub const MAX_YEAR: i32 = 1960;
pub const MAX_LIMIT: u32 = 100;
pub const DEFAULT_LIMIT: u32 = 20;

#[derive(Debug, Clone)]
pub struct Args {
    pub place: Option<String>,
    pub year_start: Option<i32>,
    pub year_end: Option<i32>,
    pub event_type: Option<i32>,
}

impl Default for Args {
    /// No filter.
    fn default() -> (r: Args)
        ensures
            r.place is None,
            r.year_start is None,
            r.year_end is None,
            r.event_type is None,
    {
        Args { place: None, year_start: None, year_end: None, event_type: None }
    }
}

/// The arguments as plain values.
pub struct FamV {
    pub place: Option<Seq<char>>,
    pub year_start: Option<i32>,
    pub year_end: Option<i32>,
    pub event_type: Option<i32>,
}

impl View for Args {
    type V = FamV;

    open spec fn view(&self) -> FamV {
        FamV {
            place: match self.place { Some(p) => Some(p@), None => None },
            year_start: self.year_start,
            year_end: self.year_end,
            event_type: self.event_type,
        }
    }
}

// ---------------------------------------------------------------------------
// Parsing the remaining arguments.

/// The flags `stats familynames` knows.
pub open spec fn known_flag(s: Seq<char>) -> bool {
    s == "--place"@ || s == "--year-start"@ || s == "--year-end"@ || s == "--event-type"@
}

/// The first position of `c` in `s` at or after `i`.
pub open spec fn first_pos(s: Seq<char>, c: char, i: int) -> Option<int>
    decreases s.len() - i,
{
    if i < 0 || i >= s.len() {
        None
    } else if s[i] == c {
        Some(i)
    } else {
        first_pos(s, c, i + 1)
    }
}

proof fn lemma_first_pos(s: Seq<char>, c: char, i: int, k: Option<int>)
    requires
        0 <= i <= s.len(),
        match k {
            Some(p) => i <= p < s.len() && s[p] == c && forall|j: int| i <= j < p ==> s[j] != c,
            None => forall|j: int| i <= j < s.len() ==> s[j] != c,
        },
    ensures
        first_pos(s, c, i) == k,
    decreases s.len() - i,
{
    if i < s.len() && s[i] != c {
        lemma_first_pos(s, c, i + 1, k);
    }
}

/// One `flag value` pair from position `i`: `--flag=value` (split at the
/// first `=`, the flag known) or a known flag followed by its value; the
/// position after it.
pub open spec fn flag_pair(rest: Seq<Seq<char>>, i: int) -> core::result::Result<(Seq<char>, Seq<char>, int), Seq<char>> {
    let s = rest[i];
    match first_pos(s, '=', 0) {
        Some(e) => {
            let key = s.subrange(0, e);
            if known_flag(key) {
                Ok((key, s.subrange(e + 1, s.len() as int), i + 1))
            } else if is_prefix("--"@, s) {
                Err("unknown flag "@ + key + " for `stats familynames`"@)
            } else {
                Err("unexpected positional "@ + s + " for `stats familynames`"@)
            }
        },
        None => if known_flag(s) {
            match next_value_of(s, rest, i + 1) {
                Ok(v) => Ok((s, v, i + 2)),
                Err(m) => Err(m),
            }
        } else if is_prefix("--"@, s) {
            Err("unknown flag "@ + s + " for `stats familynames`"@)
        } else {
            Err("unexpected positional "@ + s + " for `stats familynames`"@)
        },
    }
}

pub proof fn lemma_flag_pair_advances(rest: Seq<Seq<char>>, i: int)
    requires
        0 <= i < rest.len(),
    ensures
        flag_pair(rest, i) is Ok ==> i < flag_pair(rest, i)->Ok_0.2 <= rest.len(),
{
}

/// An integer flag value, or `{flag} not an integer: {value:?}`.
pub open spec fn int_value(flag: Seq<char>, v: Seq<char>) -> core::result::Result<i32, Seq<char>> {
    match parse_int_spec(v, true, i32::MIN as int, i32::MAX as int) {
        Some(n) => Ok(n as i32),
        None => Err(flag + " not an integer: "@ + debug_text(v)),
    }
}

/// The arguments from position `i` on, starting from `a`: each flag takes a
/// non-empty value; a later value replaces an earlier one.
pub open spec fn fam_from(rest: Seq<Seq<char>>, i: int, a: FamV) -> core::result::Result<FamV, Seq<char>>
    decreases rest.len() - i,
{
    if i < 0 || i >= rest.len() {
        Ok(a)
    } else {
        proof {
            lemma_flag_pair_advances(rest, i);
        }
        match flag_pair(rest, i) {
            Err(m) => Err(m),
            Ok((key, val, next)) => if val.len() == 0 {
                Err(key + " requires a non-empty value"@)
            } else if key == "--place"@ {
                fam_from(rest, next, FamV { place: Some(val), ..a })
            } else if key == "--year-start"@ {
                match int_value("--year-start"@, val) {
                    Ok(n) => fam_from(rest, next, FamV { year_start: Some(n), ..a }),
                    Err(m) => Err(m),
                }
            } else if key == "--year-end"@ {
                match int_value("--year-end"@, val) {
                    Ok(n) => fam_from(rest, next, FamV { year_end: Some(n), ..a }),
                    Err(m) => Err(m),
                }
            } else {
                match int_value("--event-type"@, val) {
                    Ok(n) => fam_from(rest, next, FamV { event_type: Some(n), ..a }),
                    Err(m) => Err(m),
                }
            },
        }
    }
}

pub open spec fn no_filters() -> FamV {
    FamV { place: None, year_start: None, year_end: None, event_type: None }
}

fn known(s: &str) -> (r: bool)
    ensures
        r == known_flag(s@),
{
    str_eq(s, "--place") || str_eq(s, "--year-start") || str_eq(s, "--year-end") || str_eq(s, "--event-type")
}

fn next_flag_pair(rest: &[String], i: usize) -> (r: Result<(String, String, usize)>)
    requires
        i < rest@.len(),
    ensures
        match flag_pair(string_views(rest@), i as int) {
            Ok((k, v, n)) => r is Ok && r->Ok_0.0@ == k && r->Ok_0.1@ == v && r->Ok_0.2 == n,
            Err(m) => r is Err && r->Err_0@ == verr(m),
        },
{
    let s = rest[i].as_str();
    assert(string_views(rest@)[i as int] == s@);
    let v = chars_of(s);
    let found = find_char(&v, '=');
    proof {
        lemma_first_pos(s@, '=', 0, match found { Some(e) => Some(e as int), None => None });
    }
    match found {
        Some(e) => {
            let key = string_of(&v, 0, e);
            if known(key.as_str()) {
                let val = string_of(&v, e + 1, v.len());
                Ok((key, val, i + 1))
            } else if strip_prefix(s, "--").is_some() {
                let m = cat3("unknown flag ", key.as_str(), " for `stats familynames`");
                Err(Error::new(ErrorKind::Validation, m.as_str()))
            } else {
                let m = cat3("unexpected positional ", s, " for `stats familynames`");
                Err(Error::new(ErrorKind::Validation, m.as_str()))
            }
        },
        None => {
            if known(s) {
                match next_value(s, rest, i + 1) {
                    Ok(val) => Ok((s.to_owned(), val, i + 2)),
                    Err(e) => Err(e),
                }
            } else if strip_prefix(s, "--").is_some() {
                let m = cat3("unknown flag ", s, " for `stats familynames`");
                Err(Error::new(ErrorKind::Validation, m.as_str()))
            } else {
                let m = cat3("unexpected positional ", s, " for `stats familynames`");
                Err(Error::new(ErrorKind::Validation, m.as_str()))
            }
        },
    }
}

fn parse_int_flag(flag: &str, v: &str) -> (r: Result<i32>)
    ensures
        match int_value(flag@, v@) {
            Ok(n) => r == Ok::<i32, Error>(n),
            Err(m) => r is Err && r->Err_0@ == verr(m),
        },
{
    match parse_i32(v) {
        Some(n) => Ok(n),
        None => {
            let d = debug_str(v);
            let m = cat3(flag, " not an integer: ", d.as_str());
            Err(Error::new(ErrorKind::Validation, m.as_str()))
        },
    }
}

/// The arguments of `stats familynames` from its tokens (see [`fam_from`]).
pub fn parse_rest(rest: &[String]) -> (r: Result<Args>)
    ensures
        match fam_from(string_views(rest@), 0, no_filters()) {
            Ok(a) => r is Ok && r->Ok_0@ == a,
            Err(m) => r is Err && r->Err_0@ == verr(m),
        },
{
    let ghost rs = string_views(rest@);
    let mut a = Args::default();
    let mut i: usize = 0;
    while i < rest.len()
        invariant
            i <= rest@.len(),
            rs == string_views(rest@),
            fam_from(rs, 0, no_filters()) == fam_from(rs, i as int, a@),
        decreases rest@.len() - i,
    {
        let (key, val, next) = match next_flag_pair(rest, i) {
            Ok(p) => p,
            Err(e) => return Err(e),
        };
        if val.unicode_len() == 0 {
            let m = cat2(key.as_str(), " requires a non-empty value");
            return Err(Error::new(ErrorKind::Validation, m.as_str()));
        }
        if str_eq(key.as_str(), "--place") {
            a.place = Some(val);
        } else if str_eq(key.as_str(), "--year-start") {
            match parse_int_flag("--year-start", val.as_str()) {
                Ok(n) => a.year_start = Some(n),
                Err(e) => return Err(e),
            }
        } else if str_eq(key.as_str(), "--year-end") {
            match parse_int_flag("--year-end", val.as_str()) {
                Ok(n) => a.year_end = Some(n),
                Err(e) => return Err(e),
            }
        } else {
            match parse_int_flag("--event-type", val.as_str()) {
                Ok(n) => a.event_type = Some(n),
                Err(e) => return Err(e),
            }
        }
        i = next;
    }
    Ok(a)
}

// ---------------------------------------------------------------------------
// Request and response.

pub open spec fn lang4_ok(l: Seq<char>) -> bool {
    l == "nl"@ || l == "en"@ || l == "de"@ || l == "fr"@
}

/// The request of `stats familynames`: no offset; Dutch, English, German
/// or French; years within 1500..=1960 and in order; a known event type;
/// page size 1..=100 (default 20); counts live a day.
pub open spec fn familynames_plan(ctx: ApiContext, a: Args) -> core::result::Result<RequestV, Seq<char>> {
    if ctx.offset is Some {
        Err("--offset not supported by `stats familynames`"@)
    } else if !lang4_ok(ctx.lang@) {
        Err(lang_choice_message("[\"nl\", \"en\", \"de\", \"fr\"]"@, ctx.lang@))
    } else if year_span_issue(a.year_start, a.year_end, MIN_YEAR, MAX_YEAR) is Some {
        Err(year_span_issue(a.year_start, a.year_end, MIN_YEAR, MAX_YEAR)->0)
    } else if a.event_type is Some && !event_type_ok(a.event_type->0) {
        Err("--event-type must be one of [0, 1, 2, 3, 6], got "@ + dec_int(a.event_type->0 as int))
    } else {
        match limit_check(ctx.limit, DEFAULT_LIMIT, MAX_LIMIT) {
            Err(LimitIssue::Zero) => Err("--limit must be >= 1"@),
            Err(LimitIssue::Over(n)) => Err("--limit max is 100, got "@ + dec(n as nat)),
            Ok(limit) => Ok(RequestV {
                path: "/stats/familynames.json"@,
                pairs: seq![("number_show"@, dec(limit as nat)), ("lang"@, ctx.lang@)]
                    + opt_pair("eventplace"@, a.place)
                    + opt_int_pair("eventyearstart"@, a.year_start)
                    + opt_int_pair("eventyearend"@, a.year_end)
                    + opt_int_pair("eventtype"@, a.event_type),
                ttl: ttl_of(ctx.cache_ttl_override, TtlHint::Fixed(TimeSpan { secs: 86400, nanos: 0 })),
                page_limit: Some(limit),
                page_offset: None,
            }),
        }
    }
}

pub fn request(ctx: &ApiContext, args: &Args) -> (r: Result<ApiRequest>)
    ensures
        planned(r, familynames_plan(*ctx, *args)),
{
    if ctx.offset.is_some() {
        return Err(Error::new(ErrorKind::Validation, "--offset not supported by `stats familynames`"));
    }
    let langs = ["nl", "en", "de", "fr"];
    assert(views(langs@) =~= seq!["nl"@, "en"@, "de"@, "fr"@]);
    if !str_in(ctx.lang.as_str(), &langs) {
        return Err(lang_choice_error("[\"nl\", \"en\", \"de\", \"fr\"]", ctx.lang.as_str()));
    }
    if let Some(e) = check_year_span(args.year_start, args.year_end, MIN_YEAR, MAX_YEAR) {
        return Err(e);
    }
    if let Some(et) = args.event_type {
        if !is_event_type(et) {
            let t = i64_text(et as i64);
            let m = cat2("--event-type must be one of [0, 1, 2, 3, 6], got ", t.as_str());
            return Err(Error::new(ErrorKind::Validation, m.as_str()));
        }
    }
    let limit = match pick_limit(ctx.limit, DEFAULT_LIMIT, MAX_LIMIT) {
        Ok(n) => n,
        Err(LimitIssue::Zero) => return Err(Error::new(ErrorKind::Validation, "--limit must be >= 1")),
        Err(LimitIssue::Over(n)) => {
            let t = u32_text(n);
            let m = cat2("--limit max is 100, got ", t.as_str());
            return Err(Error::new(ErrorKind::Validation, m.as_str()));
        },
    };
    let limit_s = u32_text(limit);
    let mut params: Vec<(String, String)> = Vec::new();
    push_pair(&mut params, "number_show", limit_s.as_str());
    push_pair(&mut params, "lang", ctx.lang.as_str());
    push_opt(&mut params, "eventplace", &args.place);
    push_opt_int(&mut params, "eventyearstart", args.year_start);
    push_opt_int(&mut params, "eventyearend", args.year_end);
    push_opt_int(&mut params, "eventtype", args.event_type);
    assert(pair_views(params@) =~= familynames_plan(*ctx, *args)->Ok_0.pairs);
    let ttl = resolve_ttl(ctx, TtlHint::Fixed(TimeSpan::from_secs(24 * 3600)));
    Ok(ApiRequest {
        path: "/stats/familynames.json".to_owned(),
        params,
        ttl,
        page_limit: Some(limit),
        page_offset: None,
    })
}

/// The names as an unpaginated list of the array under `familynames`, with
/// the page size; the total is their number.
pub fn shape(body: &Json, limit: u32) -> (r: Renderable)
    ensures
        r.shape == Shape::List,
        r.body@ == JsonV::Array(array_at(body@, seq!["familynames"@])),
        !r.paginated,
        r.limit == Some(limit),
        r.offset is None,
        r.total == Some(array_at(body@, seq!["familynames"@]).len() as u64),
{
    let key = ["familynames"];
    let items = items_at(body, &key);
    proof {
        assert(views(key@) =~= seq!["familynames"@]);
    }
    let total = array_count(&items);
    Renderable::list(items, false, Some(limit), None).with_total(total)
}

/// The schema entry of `stats familynames`.
pub fn schema() -> (r: Command)
    ensures
        r.name@ == "stats familynames"@,
        r.response_shape@ == "list"@,
        !r.paginated,
        r.cache_ttl_seconds == Some(86400u64),
        r.args@.len() == 6,
        r.description@ == "Family-name frequency stats by place, year range, and event type."@,
        !r.mutating,
        r.cache_ttl_strategy@ == "fixed"@,
        arg_views(r.args@) == seq![
            (ArgV { name: "--place"@, ty: "string"@, required: false, positional: false, description: None::<Seq<char>>, default: None::<JsonV>, min: None::<i64>, max: None::<i64>, enum_values: None::<Seq<JsonV>> }),
            (ArgV { name: "--year-start"@, ty: "integer"@, required: false, positional: false, description: None::<Seq<char>>, default: None::<JsonV>, min: Some(1500i64), max: Some(1960i64), enum_values: None::<Seq<JsonV>> }),
            (ArgV { name: "--year-end"@, ty: "integer"@, required: false, positional: false, description: None::<Seq<char>>, default: None::<JsonV>, min: Some(1500i64), max: Some(1960i64), enum_values: None::<Seq<JsonV>> }),
            (ArgV { name: "--event-type"@, ty: "integer"@, required: false, positional: false, description: None::<Seq<char>>, default: None::<JsonV>, min: None::<i64>, max: None::<i64>, enum_values: Some(seq![int_json(0), int_json(1), int_json(2), int_json(3), int_json(6)]) }),
            (ArgV { name: "--limit"@, ty: "integer"@, required: false, positional: false, description: None::<Seq<char>>, default: Some(int_json(20)), min: Some(1i64), max: Some(100i64), enum_values: None::<Seq<JsonV>> }),
            (ArgV { name: "--lang"@, ty: "string"@, required: false, positional: false, description: None::<Seq<char>>, default: Some(JsonV::Str("nl"@)), min: None::<i64>, max: None::<i64>, enum_values: Some(seq![JsonV::Str("nl"@), JsonV::Str("en"@), JsonV::Str("de"@), JsonV::Str("fr"@)]) }),
        ],
        field_views(r.output_fields@) == seq![
            ("items"@, "array<row>"@, None::<Seq<char>>),
            ("total"@, "integer"@, None::<Seq<char>>),
            ("limit"@, "integer"@, None::<Seq<char>>),
            ("paginated"@, "boolean"@, None::<Seq<char>>),
        ],
{
    let mut args: Vec<Arg> = Vec::new();
    args.push(Arg::flag("--place", "string", false));
    assert(arg_view(args@[0]) == (ArgV { name: "--place"@, ty: "string"@, required: false, positional: false, description: None::<Seq<char>>, default: None::<JsonV>, min: None::<i64>, max: None::<i64>, enum_values: None::<Seq<JsonV>> }));
    let mut a = Arg::flag("--year-start", "integer", false);
    a.min = Some(1500);
    a.max = Some(1960);
    args.push(a);
    assert(arg_view(args@[1]) == (ArgV { name: "--year-start"@, ty: "integer"@, required: false, positional: false, description: None::<Seq<char>>, default: None::<JsonV>, min: Some(1500i64), max: Some(1960i64), enum_values: None::<Seq<JsonV>> }));
    let mut a = Arg::flag("--year-end", "integer", false);
    a.min = Some(1500);
    a.max = Some(1960);
    args.push(a);
    assert(arg_view(args@[2]) == (ArgV { name: "--year-end"@, ty: "integer"@, required: false, positional: false, description: None::<Seq<char>>, default: None::<JsonV>, min: Some(1500i64), max: Some(1960i64), enum_values: None::<Seq<JsonV>> }));
    let mut a = Arg::flag("--event-type", "integer", false);
    a.enum_values = Some(int_values(&[0, 1, 2, 3, 6]));
    args.push(a);
    assert(models(args@[3].enum_values->0@) =~= seq![int_json(0), int_json(1), int_json(2), int_json(3), int_json(6)]);
    assert(arg_view(args@[3]) == (ArgV { name: "--event-type"@, ty: "integer"@, required: false, positional: false, description: None::<Seq<char>>, default: None::<JsonV>, min: None::<i64>, max: None::<i64>, enum_values: Some(seq![int_json(0), int_json(1), int_json(2), int_json(3), int_json(6)]) }));
    let mut a = Arg::flag("--limit", "integer", false);
    a.default = Some(Json::from_i64(20));
    a.min = Some(1);
    a.max = Some(100);
    args.push(a);
    assert(arg_view(args@[4]) == (ArgV { name: "--limit"@, ty: "integer"@, required: false, positional: false, description: None::<Seq<char>>, default: Some(int_json(20)), min: Some(1i64), max: Some(100i64), enum_values: None::<Seq<JsonV>> }));
    let mut a = Arg::flag("--lang", "string", false);
    a.default = Some(Json::string("nl"));
    a.enum_values = Some(str_values(&["nl", "en", "de", "fr"]));
    args.push(a);
    assert(models(args@[5].enum_values->0@) =~= seq![JsonV::Str("nl"@), JsonV::Str("en"@), JsonV::Str("de"@), JsonV::Str("fr"@)]);
    assert(arg_view(args@[5]) == (ArgV { name: "--lang"@, ty: "string"@, required: false, positional: false, description: None::<Seq<char>>, default: Some(JsonV::Str("nl"@)), min: None::<i64>, max: None::<i64>, enum_values: Some(seq![JsonV::Str("nl"@), JsonV::Str("en"@), JsonV::Str("de"@), JsonV::Str("fr"@)]) }));
    let mut output_fields: Vec<OutputField> = Vec::new();
    output_fields.push(OutputField { name: "items", ty: "array<row>", description: None });
    output_fields.push(OutputField { name: "total", ty: "integer", description: None });
    output_fields.push(OutputField { name: "limit", ty: "integer", description: None });
    output_fields.push(OutputField { name: "paginated", ty: "boolean", description: None });
    assert(arg_views(args@) =~= seq![
        (ArgV { name: "--place"@, ty: "string"@, required: false, positional: false, description: None::<Seq<char>>, default: None::<JsonV>, min: None::<i64>, max: None::<i64>, enum_values: None::<Seq<JsonV>> }),
        (ArgV { name: "--year-start"@, ty: "integer"@, required: false, positional: false, description: None::<Seq<char>>, default: None::<JsonV>, min: Some(1500i64), max: Some(1960i64), enum_values: None::<Seq<JsonV>> }),
        (ArgV { name: "--year-end"@, ty: "integer"@, required: false, positional: false, description: None::<Seq<char>>, default: None::<JsonV>, min: Some(1500i64), max: Some(1960i64), enum_values: None::<Seq<JsonV>> }),
        (ArgV { name: "--event-type"@, ty: "integer"@, required: false, positional: false, description: None::<Seq<char>>, default: None::<JsonV>, min: None::<i64>, max: None::<i64>, enum_values: Some(seq![int_json(0), int_json(1), int_json(2), int_json(3), int_json(6)]) }),
        (ArgV { name: "--limit"@, ty: "integer"@, required: false, positional: false, description: None::<Seq<char>>, default: Some(int_json(20)), min: Some(1i64), max: Some(100i64), enum_values: None::<Seq<JsonV>> }),
        (ArgV { name: "--lang"@, ty: "string"@, required: false, positional: false, description: None::<Seq<char>>, default: Some(JsonV::Str("nl"@)), min: None::<i64>, max: None::<i64>, enum_values: Some(seq![JsonV::Str("nl"@), JsonV::Str("en"@), JsonV::Str("de"@), JsonV::Str("fr"@)]) }),
    ]);
    assert(field_views(output_fields@) =~= seq![
        ("items"@, "array<row>"@, None::<Seq<char>>),
        ("total"@, "integer"@, None::<Seq<char>>),
        ("limit"@, "integer"@, None::<Seq<char>>),
        ("paginated"@, "boolean"@, None::<Seq<char>>),
    ]);
    Command {
        name: "stats familynames",
        description: "Family-name frequency stats by place, year range, and event type.",
        mutating: false,
        response_shape: "list",
        paginated: false,
        cache_ttl_seconds: Some(86400),
        cache_ttl_strategy: "fixed",
        args,
        output_fields,
    }
}

} // verus!
