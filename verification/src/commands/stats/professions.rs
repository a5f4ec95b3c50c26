//! `stats professions`: profession frequencies by place and year range.
use vstd::prelude::*;
use crate::commands::{ApiRequest, LimitIssue, RequestV, array_at, array_count, items_at, lang_choice_error, lang_choice_message, limit_check, opt_int_pair, opt_pair, pick_limit, planned, push_opt, push_opt_int, push_pair, u32_text};
use crate::commands::stats::{check_year_span, year_span_issue};
use crate::commands::stats::familynames::lang4_ok;
use crate::cache::pair_views;
use crate::client::TtlHint;
use crate::error::{Error, ErrorKind, Result};
use crate::json::{Json, JsonV, models};
use crate::output::{Renderable, Shape};
use crate::runtime::{ApiContext, resolve_ttl, ttl_of};
use crate::schema_cmd::{Arg, Command, OutputField, str_values, ArgV, arg_view, arg_views, field_views, int_json, option_json};
use crate::span::TimeSpan;
use crate::text::{cat2, dec, str_in, views};

verus! {

pub const MIN_YEAR: i32 = 1500;
pub const MAX_YEAR: i32 = 1960;
pub const MAX_LIMIT: u32 = 100;
pub const DEFAULT_LIMIT: u32 = 20;

#[derive(Debug, Clone)]
pub struct Args {
    pub place: Option<String>,
    pub year_start: Option<i32>,
    pub year_end: Option<i32>,
}

impl Default for Args {
    /// Empty values, no filter.
    fn default() -> (r: Args)
        ensures
            r.place is None,
            r.year_start is None,
            r.year_end is None,
    {
        Args {
            place: None,
            year_start: None,
            year_end: None,
        }
    }
}

/// The request of `stats professions`: no offset; Dutch, English, German or
/// French; years within 1500..=1960 and in order; page size 1..=100
/// (default 20); counts live a day.
pub open spec fn professions_plan(ctx: ApiContext, a: Args) -> core::result::Result<RequestV, Seq<char>> {
    if ctx.offset is Some {
        Err("--offset not supported by `stats professions`"@)
    } else if !lang4_ok(ctx.lang@) {
        Err(lang_choice_message("[\"nl\", \"en\", \"de\", \"fr\"]"@, ctx.lang@))
    } else if year_span_issue(a.year_start, a.year_end, MIN_YEAR, MAX_YEAR) is Some {
        Err(year_span_issue(a.year_start, a.year_end, MIN_YEAR, MAX_YEAR)->0)
    } else {
        match limit_check(ctx.limit, DEFAULT_LIMIT, MAX_LIMIT) {
            Err(LimitIssue::Zero) => Err("--limit must be >= 1"@),
            Err(LimitIssue::Over(n)) => Err("--limit max is 100, got "@ + dec(n as nat)),
            Ok(limit) => Ok(RequestV {
                path: "/stats/professions.json"@,
                pairs: seq![("number_show"@, dec(limit as nat)), ("lang"@, ctx.lang@)]
                    + opt_pair("eventplace"@, a.place)
                    + opt_int_pair("eventyearstart"@, a.year_start)
                    + opt_int_pair("eventyearend"@, a.year_end),
                ttl: ttl_of(ctx.cache_ttl_override, TtlHint::Fixed(TimeSpan { secs: 86400, nanos: 0 })),
                page_limit: Some(limit),
                page_offset: None,
            }),
        }
    }
}

pub fn request(ctx: &ApiContext, args: &Args) -> (r: Result<ApiRequest>)
    ensures
        planned(r, professions_plan(*ctx, *args)),
{
    if ctx.offset.is_some() {
        return Err(Error::new(ErrorKind::Validation, "--offset not supported by `stats professions`"));
    }
    let langs = ["nl", "en", "de", "fr"];
    assert(views(langs@) =~= seq!["nl"@, "en"@, "de"@, "fr"@]);
    if !str_in(ctx.lang.as_str(), &langs) {
        return Err(lang_choice_error("[\"nl\", \"en\", \"de\", \"fr\"]", ctx.lang.as_str()));
    }
    if let Some(e) = check_year_span(args.year_start, args.year_end, MIN_YEAR, MAX_YEAR) {
        return Err(e);
    }
    let limit = match pick_limit(ctx.limit, DEFAULT_LIMIT, MAX_LIMIT) {
        Ok(n) => n,
        Err(LimitIssue::Zero) => return Err(Error::new(ErrorKind::Validation, "--limit must be >= 1")),
        Err(LimitIssue::Over(n)) => {
            let t = u32_text(n);
            let m = cat2("--limit max is 100, got ", t.as_str());
            return Err(Error::new(ErrorKind::Validation, m.as_str()));
        },
    };
    let limit_s = u32_text(limit);
    let mut params: Vec<(String, String)> = Vec::new();
    push_pair(&mut params, "number_show", limit_s.as_str());
    push_pair(&mut params, "lang", ctx.lang.as_str());
    push_opt(&mut params, "eventplace", &args.place);
    push_opt_int(&mut params, "eventyearstart", args.year_start);
    push_opt_int(&mut params, "eventyearend", args.year_end);
    assert(pair_views(params@) =~= professions_plan(*ctx, *args)->Ok_0.pairs);
    let ttl = resolve_ttl(ctx, TtlHint::Fixed(TimeSpan::from_secs(24 * 3600)));
    Ok(ApiRequest {
        path: "/stats/professions.json".to_owned(),
        params,
        ttl,
        page_limit: Some(limit),
        page_offset: None,
    })
}

/// The professions as an unpaginated list of the array under
/// `professions`, with the page size; the total is their number.
pub fn shape(body: &Json, limit: u32) -> (r: Renderable)
    ensures
        r.shape == Shape::List,
        r.body@ == JsonV::Array(array_at(body@, seq!["professions"@])),
        !r.paginated,
        r.limit == Some(limit),
        r.offset is None,
        r.total == Some(array_at(body@, seq!["professions"@]).len() as u64),
{
    let key = ["professions"];
    let items = items_at(body, &key);
    proof {
        assert(views(key@) =~= seq!["professions"@]);
    }
    let total = array_count(&items);
    Renderable::list(items, false, Some(limit), None).with_total(total)
}

/// The schema entry of `stats professions`.
pub fn schema() -> (r: Command)
    ensures
        r.name@ == "stats professions"@,
        r.response_shape@ == "list"@,
        !r.paginated,
        r.cache_ttl_seconds == Some(86400u64),
        r.args@.len() == 5,
        r.description@ == "Profession frequency stats by place and year range."@,
        !r.mutating,
        r.cache_ttl_strategy@ == "fixed"@,
        arg_views(r.args@) == seq![
            (ArgV { name: "--place"@, ty: "string"@, required: false, positional: false, description: None::<Seq<char>>, default: None::<JsonV>, min: None::<i64>, max: None::<i64>, enum_values: None::<Seq<JsonV>> }),
            (ArgV { name: "--year-start"@, ty: "integer"@, required: false, positional: false, description: None::<Seq<char>>, default: None::<JsonV>, min: Some(1500i64), max: Some(1960i64), enum_values: None::<Seq<JsonV>> }),
            (ArgV { name: "--year-end"@, ty: "integer"@, required: false, positional: false, description: None::<Seq<char>>, default: None::<JsonV>, min: Some(1500i64), max: Some(1960i64), enum_values: None::<Seq<JsonV>> }),
            (ArgV { name: "--limit"@, ty: "integer"@, required: false, positional: false, description: None::<Seq<char>>, default: Some(int_json(20)), min: Some(1i64), max: Some(100i64), enum_values: None::<Seq<JsonV>> }),
            (ArgV { name: "--lang"@, ty: "string"@, required: false, positional: false, description: None::<Seq<char>>, default: Some(JsonV::Str("nl"@)), min: None::<i64>, max: None::<i64>, enum_values: Some(seq![JsonV::Str("nl"@), JsonV::Str("en"@), JsonV::Str("de"@), JsonV::Str("fr"@)]) }),
        ],
        field_views(r.output_fields@) == seq![
            ("items"@, "array<row>"@, None::<Seq<char>>),
            ("total"@, "integer"@, None::<Seq<char>>),
            ("limit"@, "integer"@, None::<Seq<char>>),
            ("paginated"@, "boolean"@, None::<Seq<char>>),
        ],
{
    let mut args: Vec<Arg> = Vec::new();
    args.push(Arg::flag("--place", "string", false));
    assert(arg_view(args@[0]) == (ArgV { name: "--place"@, ty: "string"@, required: false, positional: false, description: None::<Seq<char>>, default: None::<JsonV>, min: None::<i64>, max: None::<i64>, enum_values: None::<Seq<JsonV>> }));
    let mut a = Arg::flag("--year-start", "integer", false);
    a.min = Some(1500);
    a.max = Some(1960);
    args.push(a);
    assert(arg_view(args@[1]) == (ArgV { name: "--year-start"@, ty: "integer"@, required: false, positional: false, description: None::<Seq<char>>, default: None::<JsonV>, min: Some(1500i64), max: Some(1960i64), enum_values: None::<Seq<JsonV>> }));
    let mut a = Arg::flag("--year-end", "integer", false);
    a.min = Some(1500);
    a.max = Some(1960);
    args.push(a);
    assert(arg_view(args@[2]) == (ArgV { name: "--year-end"@, ty: "integer"@, required: false, positional: false, description: None::<Seq<char>>, default: None::<JsonV>, min: Some(1500i64), max: Some(1960i64), enum_values: None::<Seq<JsonV>> }));
    let mut a = Arg::flag("--limit", "integer", false);
    a.default = Some(Json::from_i64(20));
    a.min = Some(1);
    a.max = Some(100);
    args.push(a);
    assert(arg_view(args@[3]) == (ArgV { name: "--limit"@, ty: "integer"@, required: false, positional: false, description: None::<Seq<char>>, default: Some(int_json(20)), min: Some(1i64), max: Some(100i64), enum_values: None::<Seq<JsonV>> }));
    let mut a = Arg::flag("--lang", "string", false);
    a.default = Some(Json::string("nl"));
    a.enum_values = Some(str_values(&["nl", "en", "de", "fr"]));
    args.push(a);
    assert(models(args@[4].enum_values->0@) =~= seq![JsonV::Str("nl"@), JsonV::Str("en"@), JsonV::Str("de"@), JsonV::Str("fr"@)]);
    assert(arg_view(args@[4]) == (ArgV { name: "--lang"@, ty: "string"@, required: false, positional: false, description: None::<Seq<char>>, default: Some(JsonV::Str("nl"@)), min: None::<i64>, max: None::<i64>, enum_values: Some(seq![JsonV::Str("nl"@), JsonV::Str("en"@), JsonV::Str("de"@), JsonV::Str("fr"@)]) }));
    let mut output_fields: Vec<OutputField> = Vec::new();
    output_fields.push(OutputField { name: "items", ty: "array<row>", description: None });
    output_fields.push(OutputField { name: "total", ty: "integer", description: None });
    output_fields.push(OutputField { name: "limit", ty: "integer", description: None });
    output_fields.push(OutputField { name: "paginated", ty: "boolean", description: None });
    assert(arg_views(args@) =~= seq![
        (ArgV { name: "--place"@, ty: "string"@, required: false, positional: false, description: None::<Seq<char>>, default: None::<JsonV>, min: None::<i64>, max: None::<i64>, enum_values: None::<Seq<JsonV>> }),
        (ArgV { name: "--year-start"@, ty: "integer"@, required: false, positional: false, description: None::<Seq<char>>, default: None::<JsonV>, min: Some(1500i64), max: Some(1960i64), enum_values: None::<Seq<JsonV>> }),
        (ArgV { name: "--year-end"@, ty: "integer"@, required: false, positional: false, description: None::<Seq<char>>, default: None::<JsonV>, min: Some(1500i64), max: Some(1960i64), enum_values: None::<Seq<JsonV>> }),
        (ArgV { name: "--limit"@, ty: "integer"@, required: false, positional: false, description: None::<Seq<char>>, default: Some(int_json(20)), min: Some(1i64), max: Some(100i64), enum_values: None::<Seq<JsonV>> }),
        (ArgV { name: "--lang"@, ty: "string"@, required: false, positional: false, description: None::<Seq<char>>, default: Some(JsonV::Str("nl"@)), min: None::<i64>, max: None::<i64>, enum_values: Some(seq![JsonV::Str("nl"@), JsonV::Str("en"@), JsonV::Str("de"@), JsonV::Str("fr"@)]) }),
    ]);
    assert(field_views(output_fields@) =~= seq![
        ("items"@, "array<row>"@, None::<Seq<char>>),
        ("total"@, "integer"@, None::<Seq<char>>),
        ("limit"@, "integer"@, None::<Seq<char>>),
        ("paginated"@, "boolean"@, None::<Seq<char>>),
    ]);
    Command {
        name: "stats professions",
        description: "Profession frequency stats by place and year range.",
        mutating: false,
        response_shape: "list",
        paginated: false,
        cache_ttl_seconds: Some(86400),
        cache_ttl_strategy: "fixed",
        args,
        output_fields,
    }
}

} // verus!
