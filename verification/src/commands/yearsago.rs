//! `yearsago`: records from a number of years ago today.
use vstd::prelude::*;
use crate::commands::{ApiRequest, LimitIssue, RequestV, array_at, items_at, limit_check, pick_limit, planned, push_pair, u32_text, array_count};
use crate::cache::pair_views;
use crate::client::TtlHint;
use crate::error::{Error, ErrorKind, Result};
use crate::json::{Json, JsonV, models};
use crate::output::{Renderable, Shape};
use crate::runtime::{ApiContext, resolve_ttl, ttl_of};
use crate::schema_cmd::{Arg, Command, OutputField, ArgV, arg_view, arg_views, field_views, int_json, option_json};
use crate::text::{cat2, dec, str_eq, views};

verus! {

pub const MAX_LIMIT: u32 = 100;
pub const DEFAULT_LIMIT: u32 = 10;

#[derive(Debug, Clone)]
pub struct Args {
    pub years: u32,
}

impl Default for Args {
    /// Empty values, no filter.
    fn default() -> (r: Args)
        ensures
            r.years == 0,
    {
        Args {
            years: 0,
        }
    }
}

/// The request of `yearsago`: a page size only (1..=100, default 10), Dutch
/// only; the answer changes daily, so it lives until midnight.
pub open spec fn yearsago_plan(ctx: ApiContext, a: Args) -> core::result::Result<RequestV, Seq<char>> {
    if ctx.offset is Some {
        Err("--offset is not supported by `yearsago` (limit-only pagination)"@)
    } else if ctx.lang@ != "nl"@ {
        Err("--lang is not supported by `yearsago`"@)
    } else {
        match limit_check(ctx.limit, DEFAULT_LIMIT, MAX_LIMIT) {
            Err(LimitIssue::Over(n)) => Err("--limit max is 100, got "@ + dec(n as nat)),
            Err(LimitIssue::Zero) => Err("--limit must be at least 1"@),
            Ok(limit) => Ok(RequestV {
                path: "/records/yearsago.json"@,
                pairs: seq![("yearsago"@, dec(a.years as nat)), ("number_show"@, dec(limit as nat))],
                ttl: ttl_of(ctx.cache_ttl_override, TtlHint::UntilMidnight),
                page_limit: None,
                page_offset: None,
            }),
        }
    }
}

pub fn request(ctx: &ApiContext, args: &Args) -> (r: Result<ApiRequest>)
    ensures
        planned(r, yearsago_plan(*ctx, *args)),
{
    if ctx.offset.is_some() {
        return Err(Error::new(ErrorKind::Validation, "--offset is not supported by `yearsago` (limit-only pagination)"));
    }
    if !str_eq(ctx.lang.as_str(), "nl") {
        return Err(Error::new(ErrorKind::Validation, "--lang is not supported by `yearsago`"));
    }
    let limit = match pick_limit(ctx.limit, DEFAULT_LIMIT, MAX_LIMIT) {
        Ok(n) => n,
        Err(LimitIssue::Over(n)) => {
            let t = u32_text(n);
            let m = cat2("--limit max is 100, got ", t.as_str());
            return Err(Error::new(ErrorKind::Validation, m.as_str()));
        },
        Err(LimitIssue::Zero) => return Err(Error::new(ErrorKind::Validation, "--limit must be at least 1")),
    };
    let years_s = u32_text(args.years);
    let limit_s = u32_text(limit);
    let mut params: Vec<(String, String)> = Vec::new();
    push_pair(&mut params, "yearsago", years_s.as_str());
    push_pair(&mut params, "number_show", limit_s.as_str());
    assert(pair_views(params@) =~= yearsago_plan(*ctx, *args)->Ok_0.pairs);
    let ttl = resolve_ttl(ctx, TtlHint::UntilMidnight);
    Ok(ApiRequest { path: "/records/yearsago.json".to_owned(), params, ttl, page_limit: None, page_offset: None })
}

/// The records as an unpaginated list of the documents under
/// `response.docs`; the total is their number.
pub fn shape(body: &Json) -> (r: Renderable)
    ensures
        r.shape == Shape::List,
        r.body@ == JsonV::Array(array_at(body@, seq!["response"@, "docs"@])),
        !r.paginated,
        r.limit is None,
        r.offset is None,
        r.total == Some(array_at(body@, seq!["response"@, "docs"@]).len() as u64),
{
    let docs = ["response", "docs"];
    let items = items_at(body, &docs);
    proof {
        assert(views(docs@) =~= seq!["response"@, "docs"@]);
    }
    let total = array_count(&items);
    Renderable::list(items, false, None, None).with_total(total)
}

/// The schema entry of `yearsago`.
pub fn schema() -> (r: Command)
    ensures
        r.name@ == "yearsago"@,
        r.response_shape@ == "list"@,
        !r.paginated,
        r.cache_ttl_seconds == None::<u64>,
        r.args@.len() == 2,
        r.description@ == "Records from N years ago today (date-dependent)."@,
        !r.mutating,
        r.cache_ttl_strategy@ == "until_midnight"@,
        arg_views(r.args@) == seq![
            (ArgV { name: "years"@, ty: "integer"@, required: true, positional: true, description: None::<Seq<char>>, default: None::<JsonV>, min: Some(0i64), max: None::<i64>, enum_values: None::<Seq<JsonV>> }),
            (ArgV { name: "--limit"@, ty: "integer"@, required: false, positional: false, description: None::<Seq<char>>, default: Some(int_json(10)), min: Some(1i64), max: Some(100i64), enum_values: None::<Seq<JsonV>> }),
        ],
        field_views(r.output_fields@) == seq![
            ("items"@, "array<record>"@, None::<Seq<char>>),
            ("total"@, "integer"@, None::<Seq<char>>),
            ("paginated"@, "boolean"@, None::<Seq<char>>),
        ],
{
    let mut args: Vec<Arg> = Vec::new();
    let mut a = Arg::positional("years", "integer");
    a.min = Some(0);
    args.push(a);
    assert(arg_view(args@[0]) == (ArgV { name: "years"@, ty: "integer"@, required: true, positional: true, description: None::<Seq<char>>, default: None::<JsonV>, min: Some(0i64), max: None::<i64>, enum_values: None::<Seq<JsonV>> }));
    let mut a = Arg::flag("--limit", "integer", false);
    a.default = Some(Json::from_i64(10));
    a.min = Some(1);
    a.max = Some(100);
    args.push(a);
    assert(arg_view(args@[1]) == (ArgV { name: "--limit"@, ty: "integer"@, required: false, positional: false, description: None::<Seq<char>>, default: Some(int_json(10)), min: Some(1i64), max: Some(100i64), enum_values: None::<Seq<JsonV>> }));
    let mut output_fields: Vec<OutputField> = Vec::new();
    output_fields.push(OutputField { name: "items", ty: "array<record>", description: None });
    output_fields.push(OutputField { name: "total", ty: "integer", description: None });
    output_fields.push(OutputField { name: "paginated", ty: "boolean", description: None });
    assert(arg_views(args@) =~= seq![
        (ArgV { name: "years"@, ty: "integer"@, required: true, positional: true, description: None::<Seq<char>>, default: None::<JsonV>, min: Some(0i64), max: None::<i64>, enum_values: None::<Seq<JsonV>> }),
        (ArgV { name: "--limit"@, ty: "integer"@, required: false, positional: false, description: None::<Seq<char>>, default: Some(int_json(10)), min: Some(1i64), max: Some(100i64), enum_values: None::<Seq<JsonV>> }),
    ]);
    assert(field_views(output_fields@) =~= seq![
        ("items"@, "array<record>"@, None::<Seq<char>>),
        ("total"@, "integer"@, None::<Seq<char>>),
        ("paginated"@, "boolean"@, None::<Seq<char>>),
    ]);
    Command {
        name: "yearsago",
        description: "Records from N years ago today (date-dependent).",
        mutating: false,
        response_shape: "list",
        paginated: false,
        cache_ttl_seconds: None,
        cache_ttl_strategy: "until_midnight",
        args,
        output_fields,
    }
}

} // verus!
