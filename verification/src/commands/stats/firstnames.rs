//! `stats firstnames`: first-name frequencies for a place and year.
use vstd::prelude::*;
use crate::commands::{ApiRequest, LimitIssue, RequestV, array_at, array_count, items_at, limit_check, pick_limit, planned, push_pair, u32_text, i32_text};
use crate::commands::stats::{year_range_error, year_range_message};
use crate::cache::pair_views;
use crate::client::TtlHint;
use crate::error::{Error, ErrorKind, Result};
use crate::json::{Json, JsonV, models};
use crate::output::{Renderable, Shape};
use crate::runtime::{ApiContext, resolve_ttl, ttl_of};
use crate::schema_cmd::{Arg, Command, OutputField, ArgV, arg_view, arg_views, field_views, int_json, option_json};
use crate::span::TimeSpan;
use crate::text::{cat2, dec, dec_int, str_eq, views};

verus! {

pub const MIN_YEAR: i32 = 1600;
pub const MAX_YEAR: i32 = 1960;
pub const MAX_LIMIT: u32 = 100;
pub const DEFAULT_LIMIT: u32 = 20;

#[derive(Debug, Clone)]
pub struct Args {
    pub place: String,
    pub year: i32,
}

/// The request of `stats firstnames`: no offset, Dutch only, a year within
/// 1600..=1960, page size 1..=100 (default 20); counts live a day.
pub open spec fn firstnames_plan(ctx: ApiContext, a: Args) -> core::result::Result<RequestV, Seq<char>> {
    if ctx.offset is Some {
        Err("--offset not supported by `stats firstnames`"@)
    } else if ctx.lang@ != "nl"@ {
        Err("--lang not supported by `stats firstnames`"@)
    } else if !(MIN_YEAR <= a.year <= MAX_YEAR) {
        Err(year_range_message("--year"@, MIN_YEAR, MAX_YEAR, a.year))
    } else {
        match limit_check(ctx.limit, DEFAULT_LIMIT, MAX_LIMIT) {
            Err(LimitIssue::Zero) => Err("--limit must be >= 1"@),
            Err(LimitIssue::Over(n)) => Err("--limit max is 100, got "@ + dec(n as nat)),
            Ok(limit) => Ok(RequestV {
                path: "/stats/firstnames.json"@,
                pairs: seq![
                    ("eventplace"@, a.place@),
                    ("eventyear"@, dec_int(a.year as int)),
                    ("number_show"@, dec(limit as nat)),
                ],
                ttl: ttl_of(ctx.cache_ttl_override, TtlHint::Fixed(TimeSpan { secs: 86400, nanos: 0 })),
                page_limit: Some(limit),
                page_offset: None,
            }),
        }
    }
}

pub fn request(ctx: &ApiContext, args: &Args) -> (r: Result<ApiRequest>)
    ensures
        planned(r, firstnames_plan(*ctx, *args)),
{
    if ctx.offset.is_some() {
        return Err(Error::new(ErrorKind::Validation, "--offset not supported by `stats firstnames`"));
    }
    if !str_eq(ctx.lang.as_str(), "nl") {
        return Err(Error::new(ErrorKind::Validation, "--lang not supported by `stats firstnames`"));
    }
    if !(MIN_YEAR <= args.year && args.year <= MAX_YEAR) {
        return Err(year_range_error("--year", MIN_YEAR, MAX_YEAR, args.year));
    }
    let limit = match pick_limit(ctx.limit, DEFAULT_LIMIT, MAX_LIMIT) {
        Ok(n) => n,
        Err(LimitIssue::Zero) => return Err(Error::new(ErrorKind::Validation, "--limit must be >= 1")),
        Err(LimitIssue::Over(n)) => {
            let t = u32_text(n);
            let m = cat2("--limit max is 100, got ", t.as_str());
            return Err(Error::new(ErrorKind::Validation, m.as_str()));
        },
    };
    let yr = i32_text(args.year);
    let limit_s = u32_text(limit);
    let mut params: Vec<(String, String)> = Vec::new();
    push_pair(&mut params, "eventplace", args.place.as_str());
    push_pair(&mut params, "eventyear", yr.as_str());
    push_pair(&mut params, "number_show", limit_s.as_str());
    assert(pair_views(params@) =~= firstnames_plan(*ctx, *args)->Ok_0.pairs);
    let ttl = resolve_ttl(ctx, TtlHint::Fixed(TimeSpan::from_secs(24 * 3600)));
    Ok(ApiRequest {
        path: "/stats/firstnames.json".to_owned(),
        params,
        ttl,
        page_limit: Some(limit),
        page_offset: None,
    })
}

/// The names as an unpaginated list of the array under
/// `response.firstnames`, with the page size; the total is their number.
pub fn shape(body: &Json, limit: u32) -> (r: Renderable)
    ensures
        r.shape == Shape::List,
        r.body@ == JsonV::Array(array_at(body@, seq!["response"@, "firstnames"@])),
        !r.paginated,
        r.limit == Some(limit),
        r.offset is None,
        r.total == Some(array_at(body@, seq!["response"@, "firstnames"@]).len() as u64),
{
    let key = ["response", "firstnames"];
    let items = items_at(body, &key);
    proof {
        assert(views(key@) =~= seq!["response"@, "firstnames"@]);
    }
    let total = array_count(&items);
    Renderable::list(items, false, Some(limit), None).with_total(total)
}

/// The schema entry of `stats firstnames`.
pub fn schema() -> (r: Command)
    ensures
        r.name@ == "stats firstnames"@,
        r.response_shape@ == "list"@,
        !r.paginated,
        r.cache_ttl_seconds == Some(86400u64),
        r.args@.len() == 3,
        r.description@ == "First-name frequency stats for a place and year."@,
        !r.mutating,
        r.cache_ttl_strategy@ == "fixed"@,
        arg_views(r.args@) == seq![
            (ArgV { name: "--place"@, ty: "string"@, required: true, positional: false, description: None::<Seq<char>>, default: None::<JsonV>, min: None::<i64>, max: None::<i64>, enum_values: None::<Seq<JsonV>> }),
            (ArgV { name: "--year"@, ty: "integer"@, required: true, positional: false, description: None::<Seq<char>>, default: None::<JsonV>, min: Some(1600i64), max: Some(1960i64), enum_values: None::<Seq<JsonV>> }),
            (ArgV { name: "--limit"@, ty: "integer"@, required: false, positional: false, description: None::<Seq<char>>, default: Some(int_json(20)), min: Some(1i64), max: Some(100i64), enum_values: None::<Seq<JsonV>> }),
        ],
        field_views(r.output_fields@) == seq![
            ("items"@, "array<row>"@, None::<Seq<char>>),
            ("total"@, "integer"@, None::<Seq<char>>),
            ("limit"@, "integer"@, None::<Seq<char>>),
            ("paginated"@, "boolean"@, None::<Seq<char>>),
        ],
{
    let mut args: Vec<Arg> = Vec::new();
    args.push(Arg::flag("--place", "string", true));
    assert(arg_view(args@[0]) == (ArgV { name: "--place"@, ty: "string"@, required: true, positional: false, description: None::<Seq<char>>, default: None::<JsonV>, min: None::<i64>, max: None::<i64>, enum_values: None::<Seq<JsonV>> }));
    let mut a = Arg::flag("--year", "integer", true);
    a.min = Some(1600);
    a.max = Some(1960);
    args.push(a);
    assert(arg_view(args@[1]) == (ArgV { name: "--year"@, ty: "integer"@, required: true, positional: false, description: None::<Seq<char>>, default: None::<JsonV>, min: Some(1600i64), max: Some(1960i64), enum_values: None::<Seq<JsonV>> }));
    let mut a = Arg::flag("--limit", "integer", false);
    a.default = Some(Json::from_i64(20));
    a.min = Some(1);
    a.max = Some(100);
    args.push(a);
    assert(arg_view(args@[2]) == (ArgV { name: "--limit"@, ty: "integer"@, required: false, positional: false, description: None::<Seq<char>>, default: Some(int_json(20)), min: Some(1i64), max: Some(100i64), enum_values: None::<Seq<JsonV>> }));
    let mut output_fields: Vec<OutputField> = Vec::new();
    output_fields.push(OutputField { name: "items", ty: "array<row>", description: None });
    output_fields.push(OutputField { name: "total", ty: "integer", description: None });
    output_fields.push(OutputField { name: "limit", ty: "integer", description: None });
    output_fields.push(OutputField { name: "paginated", ty: "boolean", description: None });
    assert(arg_views(args@) =~= seq![
        (ArgV { name: "--place"@, ty: "string"@, required: true, positional: false, description: None::<Seq<char>>, default: None::<JsonV>, min: None::<i64>, max: None::<i64>, enum_values: None::<Seq<JsonV>> }),
        (ArgV { name: "--year"@, ty: "integer"@, required: true, positional: false, description: None::<Seq<char>>, default: None::<JsonV>, min: Some(1600i64), max: Some(1960i64), enum_values: None::<Seq<JsonV>> }),
        (ArgV { name: "--limit"@, ty: "integer"@, required: false, positional: false, description: None::<Seq<char>>, default: Some(int_json(20)), min: Some(1i64), max: Some(100i64), enum_values: None::<Seq<JsonV>> }),
    ]);
    assert(field_views(output_fields@) =~= seq![
        ("items"@, "array<row>"@, None::<Seq<char>>),
        ("total"@, "integer"@, None::<Seq<char>>),
        ("limit"@, "integer"@, None::<Seq<char>>),
        ("paginated"@, "boolean"@, None::<Seq<char>>),
    ]);
    Command {
        name: "stats firstnames",
        description: "First-name frequency stats for a place and year.",
        mutating: false,
        response_shape: "list",
        paginated: false,
        cache_ttl_seconds: Some(86400),
        cache_ttl_strategy: "fixed",
        args,
        output_fields,
    }
}

} // verus!
