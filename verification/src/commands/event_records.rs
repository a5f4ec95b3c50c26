//! The event-record endpoints (births, deaths, marriages): their shared flags,
//! request and response shape.
use vstd::prelude::*;
use crate::commands::{ApiRequest, RequestV, planned, LimitIssue, limit_check, opt_int_pair, opt_pair, pair, pick_limit, push_opt, push_opt_int, push_pair, u32_text, array_at};
use crate::commands::items_at;
use crate::cache::pair_views;
use crate::client::TtlHint;
use crate::error::{Error, ErrorKind, Result};
use crate::json::{Json, JsonV, deep_clone, models, opt_u64};
use crate::output::{Renderable, Shape};
use crate::runtime::{ApiContext, resolve_ttl, ttl_of, verr};
use crate::span::TimeSpan;
use crate::text::{cat2, cat3, cat4, cat5, dec, is_prefix, parse_i32, parse_int_spec, str_eq, string_views, strip_prefix, views};

verus! {

/// An event-record endpoint: the command's name, its API path, and whether
/// it takes `--event-province`.
#[derive(Debug, Clone, Copy)]
pub struct Endpoint<'a> {
    pub command_name: &'a str,
    pub path: &'a str,
    pub allow_province: bool,
}

/// The optional filters of the event-record commands.
#[derive(Debug, Clone)]
pub struct CommonFlags {
    pub event_year: Option<i32>,
    pub event_place: Option<String>,
    pub event_province: Option<String>,
}

/// The filters as plain values.
pub struct FlagsV {
    pub event_year: Option<i32>,
    pub event_place: Option<Seq<char>>,
    pub event_province: Option<Seq<char>>,
}

pub open spec fn opt_view(o: Option<String>) -> Option<Seq<char>> {
    match o {
        Some(s) => Some(s@),
        None => None,
    }
}

impl View for CommonFlags {
    type V = FlagsV;

    open spec fn view(&self) -> FlagsV {
        FlagsV {
            event_year: self.event_year,
            event_place: opt_view(self.event_place),
            event_province: opt_view(self.event_province),
        }
    }
}

impl Default for CommonFlags {
    /// No filter.
    fn default() -> (r: CommonFlags)
        ensures
            r@ == no_flags(),
    {
        CommonFlags { event_year: None, event_place: None, event_province: None }
    }
}

pub open spec fn no_flags() -> FlagsV {
    FlagsV { event_year: None, event_place: None, event_province: None }
}

pub const MAX_LIMIT: u32 = 100;
pub const DEFAULT_LIMIT: u32 = 10;

// ---------------------------------------------------------------------------
// Flags.

/// `s` after the prefix `p`.
pub open spec fn after(p: Seq<char>, s: Seq<char>) -> Seq<char> {
    s.subrange(p.len() as int, s.len() as int)
}

/// The value of `--event-year`: an `i32`, or the error message.
pub open spec fn event_year_of(v: Seq<char>) -> core::result::Result<i32, Seq<char>> {
    match parse_int_spec(v, true, i32::MIN as int, i32::MAX as int) {
        Some(n) => Ok(n as i32),
        None => Err("--event-year not an integer: "@ + v),
    }
}

/// The value that follows a flag at position `j`: missing at the end, or
/// when the next token is itself a flag.
pub open spec fn next_value_of(flag: Seq<char>, rest: Seq<Seq<char>>, j: int) -> core::result::Result<Seq<char>, Seq<char>> {
    if j < 0 || j >= rest.len() {
        Err(flag + ": missing value"@)
    } else if is_prefix("--"@, rest[j]) {
        Err(flag + ": missing value (got flag '"@ + rest[j] + "' instead)"@)
    } else {
        Ok(rest[j])
    }
}

pub open spec fn province_refused(cmd: Seq<char>) -> Seq<char> {
    "--event-province is not supported by `"@ + cmd + "`"@
}

pub open spec fn with_year(f: FlagsV, y: i32) -> FlagsV {
    FlagsV { event_year: Some(y), event_place: f.event_place, event_province: f.event_province }
}

pub open spec fn with_place(f: FlagsV, p: Seq<char>) -> FlagsV {
    FlagsV { event_year: f.event_year, event_place: Some(p), event_province: f.event_province }
}

pub open spec fn with_province(f: FlagsV, p: Seq<char>) -> FlagsV {
    FlagsV { event_year: f.event_year, event_place: f.event_place, event_province: Some(p) }
}

/// The positional arguments and filters of the tokens from position `i` on,
/// starting from `pos` and `f`. `--event-year`, `--event-place` and
/// `--event-province` take a value as `--flag=VALUE` or `--flag VALUE`; a
/// later value replaces an earlier one. Any other `--` token is an unknown
/// flag; `--event-province` is refused where the endpoint does not take it.
pub open spec fn common_from(rest: Seq<Seq<char>>, i: int, allow: bool, cmd: Seq<char>, pos: Seq<Seq<char>>, f: FlagsV) -> core::result::Result<(Seq<Seq<char>>, FlagsV), Seq<char>>
    decreases rest.len() - i,
{
    if i < 0 || i >= rest.len() {
        Ok((pos, f))
    } else {
        let s = rest[i];
        if is_prefix("--event-year="@, s) {
            match event_year_of(after("--event-year="@, s)) {
                Ok(y) => common_from(rest, i + 1, allow, cmd, pos, with_year(f, y)),
                Err(m) => Err(m),
            }
        } else if s == "--event-year"@ {
            match next_value_of("--event-year"@, rest, i + 1) {
                Ok(v) => match event_year_of(v) {
                    Ok(y) => common_from(rest, i + 2, allow, cmd, pos, with_year(f, y)),
                    Err(m) => Err(m),
                },
                Err(m) => Err(m),
            }
        } else if is_prefix("--event-place="@, s) {
            common_from(rest, i + 1, allow, cmd, pos, with_place(f, after("--event-place="@, s)))
        } else if s == "--event-place"@ {
            match next_value_of("--event-place"@, rest, i + 1) {
                Ok(v) => common_from(rest, i + 2, allow, cmd, pos, with_place(f, v)),
                Err(m) => Err(m),
            }
        } else if is_prefix("--event-province="@, s) {
            if !allow {
                Err(province_refused(cmd))
            } else {
                common_from(rest, i + 1, allow, cmd, pos, with_province(f, after("--event-province="@, s)))
            }
        } else if s == "--event-province"@ {
            if !allow {
                Err(province_refused(cmd))
            } else {
                match next_value_of("--event-province"@, rest, i + 1) {
                    Ok(v) => common_from(rest, i + 2, allow, cmd, pos, with_province(f, v)),
                    Err(m) => Err(m),
                }
            }
        } else if is_prefix("--"@, s) {
            Err("unknown flag "@ + s + " for `"@ + cmd + "`"@)
        } else {
            common_from(rest, i + 1, allow, cmd, pos.push(s), f)
        }
    }
}

/// What [`parse_common_flags`] makes of the tokens.
pub open spec fn common_flags_of(rest: Seq<Seq<char>>, allow: bool, cmd: Seq<char>) -> core::result::Result<(Seq<Seq<char>>, FlagsV), Seq<char>> {
    common_from(rest, 0, allow, cmd, Seq::empty(), no_flags())
}

/// Parses the optional filters and collects the positional arguments
/// (see [`common_from`]).
pub fn parse_common_flags(rest: &[String], allow_province: bool, command_name: &str) -> (r: Result<(Vec<String>, CommonFlags)>)
    ensures
        match common_flags_of(string_views(rest@), allow_province, command_name@) {
            Ok((p, f)) => r is Ok && string_views(r->Ok_0.0@) == p && r->Ok_0.1@ == f,
            Err(m) => r is Err && r->Err_0@ == verr(m),
        },
{
    let ghost rs = string_views(rest@);
    let mut flags = CommonFlags::default();
    let mut positional: Vec<String> = Vec::new();
    let mut i: usize = 0;
    assert(string_views(positional@) =~= Seq::<Seq<char>>::empty());
    while i < rest.len()
        invariant
            i <= rest@.len(),
            rs == string_views(rest@),
            common_flags_of(rs, allow_province, command_name@) == common_from(
                rs,
                i as int,
                allow_province,
                command_name@,
                string_views(positional@),
                flags@,
            ),
        decreases rest@.len() - i,
    {
        let s = rest[i].as_str();
        assert(rs[i as int] == s@);
        if let Some(v) = strip_prefix(s, "--event-year=") {
            match parse_event_year(v.as_str()) {
                Ok(y) => {
                    flags.event_year = Some(y);
                    i = i + 1;
                },
                Err(e) => return Err(e),
            }
        } else if str_eq(s, "--event-year") {
            let v = match next_value("--event-year", rest, i + 1) {
                Ok(v) => v,
                Err(e) => return Err(e),
            };
            match parse_event_year(v.as_str()) {
                Ok(y) => {
                    flags.event_year = Some(y);
                    i = i + 2;
                },
                Err(e) => return Err(e),
            }
        } else if let Some(v) = strip_prefix(s, "--event-place=") {
            flags.event_place = Some(v);
            i = i + 1;
        } else if str_eq(s, "--event-place") {
            let v = match next_value("--event-place", rest, i + 1) {
                Ok(v) => v,
                Err(e) => return Err(e),
            };
            flags.event_place = Some(v);
            i = i + 2;
        } else if let Some(v) = strip_prefix(s, "--event-province=") {
            if !allow_province {
                return Err(province_error(command_name));
            }
            flags.event_province = Some(v);
            i = i + 1;
        } else if str_eq(s, "--event-province") {
            if !allow_province {
                return Err(province_error(command_name));
            }
            let v = match next_value("--event-province", rest, i + 1) {
                Ok(v) => v,
                Err(e) => return Err(e),
            };
            flags.event_province = Some(v);
            i = i + 2;
        } else if strip_prefix(s, "--").is_some() {
            let m = cat5("unknown flag ", s, " for `", command_name, "`");
            return Err(Error::new(ErrorKind::Validation, m.as_str()));
        } else {
            let ghost before = string_views(positional@);
            positional.push(rest[i].clone());
            assert(string_views(positional@) =~= before.push(s@));
            i = i + 1;
        }
    }
    Ok((positional, flags))
}

fn province_error(command_name: &str) -> (r: Error)
    ensures
        r@ == verr(province_refused(command_name@)),
{
    let m = cat3("--event-province is not supported by `", command_name, "`");
    Error::new(ErrorKind::Validation, m.as_str())
}

/// The value of `--event-year` (see [`event_year_of`]).
pub fn parse_event_year(v: &str) -> (r: Result<i32>)
    ensures
        match event_year_of(v@) {
            Ok(y) => r == Ok::<i32, Error>(y),
            Err(m) => r is Err && r->Err_0@ == verr(m),
        },
{
    match parse_i32(v) {
        Some(y) => Ok(y),
        None => {
            let m = cat2("--event-year not an integer: ", v);
            Err(Error::new(ErrorKind::Validation, m.as_str()))
        },
    }
}

/// The token at position `j`, as the value of `flag` (see [`next_value_of`]).
pub fn next_value(flag: &str, rest: &[String], j: usize) -> (r: Result<String>)
    ensures
        match next_value_of(flag@, string_views(rest@), j as int) {
            Ok(v) => r is Ok && r->Ok_0@ == v,
            Err(m) => r is Err && r->Err_0@ == verr(m),
        },
{
    if j >= rest.len() {
        let m = cat2(flag, ": missing value");
        return Err(Error::new(ErrorKind::Validation, m.as_str()));
    }
    let v = rest[j].as_str();
    assert(string_views(rest@)[j as int] == v@);
    if strip_prefix(v, "--").is_some() {
        let m = cat4(flag, ": missing value (got flag '", v, "' instead)");
        return Err(Error::new(ErrorKind::Validation, m.as_str()));
    }
    Ok(v.to_owned())
}

// ---------------------------------------------------------------------------
// Request and response.

/// The query of an event-record request.
pub open spec fn event_pairs(
    primary: (Seq<char>, Seq<char>),
    secondary: Option<(Seq<char>, Seq<char>)>,
    limit: u32,
    offset: u32,
    f: FlagsV,
) -> Seq<(Seq<char>, Seq<char>)> {
    seq![primary, ("number_show"@, dec(limit as nat)), ("start"@, dec(offset as nat))]
        + match secondary { Some(p) => seq![p], None => Seq::empty() }
        + match f.event_year { Some(y) => seq![("eventyear"@, crate::text::dec_int(y as int))], None => Seq::empty() }
        + match f.event_place { Some(p) => seq![("eventplace"@, p)], None => Seq::empty() }
        + match f.event_province { Some(p) => seq![("eventprovince"@, p)], None => Seq::empty() }
}

/// The lifetime of event-record responses: six hours.
pub open spec fn six_hours() -> TtlHint {
    TtlHint::Fixed(TimeSpan { secs: 21600, nanos: 0 })
}

pub open spec fn opt_pair_view(p: Option<(&str, &str)>) -> Option<(Seq<char>, Seq<char>)> {
    match p {
        Some((k, v)) => Some((k@, v@)),
        None => None,
    }
}

/// The request of an event-record command. Only Dutch is served; the
/// province filter only where the endpoint takes it; the page size is
/// 1..=100 (default 10), the offset defaults to 0; responses live six hours.
pub open spec fn event_plan(
    cmd: Seq<char>,
    path: Seq<char>,
    allow_province: bool,
    ctx: ApiContext,
    primary: (Seq<char>, Seq<char>),
    secondary: Option<(Seq<char>, Seq<char>)>,
    f: FlagsV,
) -> core::result::Result<RequestV, Seq<char>> {
    if ctx.lang@ != "nl"@ {
        Err("--lang is not supported by `"@ + cmd + "`"@)
    } else if !allow_province && f.event_province is Some {
        Err(province_refused(cmd))
    } else {
        match limit_check(ctx.limit, DEFAULT_LIMIT, MAX_LIMIT) {
            Err(LimitIssue::Over(n)) => Err("--limit max is 100, got "@ + dec(n as nat)),
            Err(LimitIssue::Zero) => Err("--limit must be at least 1"@),
            Ok(limit) => {
                let offset = match ctx.offset { Some(o) => o, None => 0 };
                Ok(RequestV {
                    path,
                    pairs: event_pairs(primary, secondary, limit, offset, f),
                    ttl: ttl_of(ctx.cache_ttl_override, six_hours()),
                    page_limit: Some(limit),
                    page_offset: Some(offset),
                })
            },
        }
    }
}

/// The request of an event-record command (see [`event_plan`]).
pub fn event_request(
    ep: Endpoint<'_>,
    ctx: &ApiContext,
    primary_param: (&str, &str),
    secondary_param: Option<(&str, &str)>,
    flags: &CommonFlags,
) -> (r: Result<ApiRequest>)
    ensures
        planned(r, event_plan(
            ep.command_name@,
            ep.path@,
            ep.allow_province,
            *ctx,
            (primary_param.0@, primary_param.1@),
            opt_pair_view(secondary_param),
            flags@,
        )),
{
    if !str_eq(ctx.lang.as_str(), "nl") {
        let m = cat3("--lang is not supported by `", ep.command_name, "`");
        return Err(Error::new(ErrorKind::Validation, m.as_str()));
    }
    if !ep.allow_province && flags.event_province.is_some() {
        return Err(province_error(ep.command_name));
    }
    let limit = match pick_limit(ctx.limit, DEFAULT_LIMIT, MAX_LIMIT) {
        Ok(n) => n,
        Err(LimitIssue::Over(n)) => {
            let t = u32_text(n);
            let m = cat2("--limit max is 100, got ", t.as_str());
            return Err(Error::new(ErrorKind::Validation, m.as_str()));
        },
        Err(LimitIssue::Zero) => {
            return Err(Error::new(ErrorKind::Validation, "--limit must be at least 1"));
        },
    };
    let offset = match ctx.offset {
        Some(o) => o,
        None => 0,
    };
    let limit_s = u32_text(limit);
    let offset_s = u32_text(offset);
    let mut params: Vec<(String, String)> = Vec::new();
    push_pair(&mut params, primary_param.0, primary_param.1);
    push_pair(&mut params, "number_show", limit_s.as_str());
    push_pair(&mut params, "start", offset_s.as_str());
    let ghost base = pair_views(params@);
    match secondary_param {
        Some((k, v)) => push_pair(&mut params, k, v),
        None => {},
    }
    let ghost with_secondary = pair_views(params@);
    push_opt_int(&mut params, "eventyear", flags.event_year);
    push_opt(&mut params, "eventplace", &flags.event_place);
    push_opt(&mut params, "eventprovince", &flags.event_province);
    proof {
        assert(with_secondary =~= base + match opt_pair_view(secondary_param) { Some(p) => seq![p], None => Seq::empty() });
        assert(pair_views(params@) =~= event_pairs(
            (primary_param.0@, primary_param.1@),
            opt_pair_view(secondary_param),
            limit,
            offset,
            flags@,
        ));
    }
    let ttl = resolve_ttl(ctx, TtlHint::Fixed(TimeSpan::from_secs(6 * 3600)));
    Ok(ApiRequest {
        path: ep.path.to_owned(),
        params,
        ttl,
        page_limit: Some(limit),
        page_offset: Some(offset),
    })
}

/// Whether a document passes an `--event-year` filter: with no year every
/// document does; with one, a document whose `eventdate.year` is an integer
/// passes only when it is that year, and one without such a year passes.
pub open spec fn year_matches(doc: JsonV, year: Option<i32>) -> bool {
    match year {
        None => true,
        Some(y) => match doc.at(seq!["eventdate"@, "year"@]) {
            Some(v) => match v.as_i64() {
                Some(n) => n == y,
                None => true,
            },
            None => true,
        },
    }
}

/// The documents that pass the year filter, in their order.
pub open spec fn year_filtered(docs: Seq<JsonV>, year: Option<i32>) -> Seq<JsonV>
    decreases docs.len(),
{
    if docs.len() == 0 {
        Seq::empty()
    } else {
        let prev = year_filtered(docs.drop_last(), year);
        if year_matches(docs.last(), year) {
            prev.push(docs.last())
        } else {
            prev
        }
    }
}

fn passes_year(doc: &Json, year: Option<i32>) -> (r: bool)
    ensures
        r == year_matches(doc@, year),
{
    let path = ["eventdate", "year"];
    proof {
        assert(views(path@) =~= seq!["eventdate"@, "year"@]);
    }
    match year {
        None => true,
        Some(y) => match doc.at(&path) {
            Some(v) => match v.as_i64() {
                Some(n) => n == y as i64,
                None => true,
            },
            None => true,
        },
    }
}

/// The documents of `items` (an array) that pass the year filter.
fn filter_year(items: &Json, year: Option<i32>) -> (r: Json)
    ensures
        items@ is Array ==> r@ == JsonV::Array(year_filtered(items@->Array_0, year)),
{
    let mut out: Vec<Json> = Vec::new();
    match items {
        Json::Array(docs) => {
            proof {
                crate::json::lemma_models_index(docs@);
            }
            let ghost ds = models(docs@);
            let mut i: usize = 0;
            assert(ds.subrange(0, 0) =~= Seq::<JsonV>::empty());
            while i < docs.len()
                invariant
                    i <= docs@.len(),
                    ds == models(docs@),
                    ds.len() == docs@.len(),
                    forall|x: int| 0 <= x < docs@.len() ==> #[trigger] ds[x] == docs@[x].model(),
                    models(out@) == year_filtered(ds.subrange(0, i as int), year),
                decreases docs@.len() - i,
            {
                assert(ds.subrange(0, i + 1).drop_last() =~= ds.subrange(0, i as int));
                assert(ds.subrange(0, i + 1).last() == docs@[i as int]@);
                if passes_year(&docs[i], year) {
                    let d = deep_clone(&docs[i]);
                    let ghost before = out@;
                    out.push(d);
                    proof {
                        crate::json::lemma_models_push(before, d);
                    }
                }
                i = i + 1;
            }
            assert(ds.subrange(0, docs@.len() as int) =~= ds);
        },
        _ => {},
    }
    Json::Array(out)
}

/// An event-record response as a paginated list: the documents under
/// `response.docs` that pass the `--event-year` filter (the API does not
/// always apply it), the total under `response.numFound`.
pub fn event_shape(body: &Json, limit: u32, offset: u32, event_year: Option<i32>) -> (r: Renderable)
    ensures
        r.shape == Shape::List,
        r.body@ == JsonV::Array(year_filtered(array_at(body@, seq!["response"@, "docs"@]), event_year)),
        r.paginated,
        r.limit == Some(limit),
        r.offset == Some(offset),
        r.total == opt_u64(body@.at(seq!["response"@, "numFound"@])),
{
    let docs = ["response", "docs"];
    let num = ["response", "numFound"];
    let total = match body.at(&num) {
        Some(v) => v.as_u64(),
        None => None,
    };
    proof {
        assert(views(docs@) =~= seq!["response"@, "docs"@]);
        assert(views(num@) =~= seq!["response"@, "numFound"@]);
    }
    let all = items_at(body, &docs);
    let items = filter_year(&all, event_year);
    Renderable::list(items, true, Some(limit), Some(offset)).with_total(total)
}

} // verus!
