//! `transcripts search`: full-text search in transcriptions.
use vstd::prelude::*;
use crate::commands::{ApiRequest, LimitIssue, RequestV, limit_check, opt_int_pair, opt_pair, pick_limit, planned, push_opt, push_opt_int, push_pair, u32_text, value_at, value_at_or_empty};
use crate::commands::transcripts::{transcript_lang_ok, unsupported_lang_error, unsupported_lang_message};
use crate::cache::pair_views;
use crate::client::TtlHint;
use crate::error::{Error, ErrorKind, Result};
use crate::json::{Json, JsonV, opt_u64, models};
use crate::output::{Renderable, Shape};
use crate::runtime::{ApiContext, resolve_ttl, ttl_of};
use crate::schema_cmd::{Arg, Command, OutputField, str_values, ArgV, arg_view, arg_views, field_views, int_json, option_json};
use crate::span::TimeSpan;
use crate::text::{dec, str_in, views};

verus! {

pub const MAX_LIMIT: u32 = 100;
pub const DEFAULT_LIMIT: u32 = 10;

#[derive(Debug, Clone)]
pub struct Args {
    pub q: String,
    pub archive_code: Option<String>,
    pub archive_number: Option<String>,
    pub inventory_number: Option<String>,
    pub year_start: Option<i32>,
    pub year_end: Option<i32>,
}

impl Default for Args {
    /// Empty values, no filter.
    fn default() -> (r: Args)
        ensures
            r.q@.len() == 0,
            r.archive_code is None,
            r.archive_number is None,
            r.inventory_number is None,
            r.year_start is None,
            r.year_end is None,
    {
        Args {
            q: String::new(),
            archive_code: None,
            archive_number: None,
            inventory_number: None,
            year_start: None,
            year_end: None,
        }
    }
}

/// The request of `transcripts search`: a non-empty query; Dutch, English,
/// German or French; page size 1..=100 (default 10), offset default 0; six
/// hours.
pub open spec fn tsearch_plan(ctx: ApiContext, a: Args) -> core::result::Result<RequestV, Seq<char>> {
    if a.q@.len() == 0 {
        Err("q: must not be empty"@)
    } else if !transcript_lang_ok(ctx.lang@) {
        Err(unsupported_lang_message(ctx.lang@))
    } else {
        match limit_check(ctx.limit, DEFAULT_LIMIT, MAX_LIMIT) {
            Err(LimitIssue::Zero) => Err("--limit: must be at least 1"@),
            Err(LimitIssue::Over(_)) => Err("--limit: exceeds maximum of 100"@),
            Ok(limit) => {
                let offset = match ctx.offset { Some(o) => o, None => 0 };
                Ok(RequestV {
                    path: "/transcriptions/search.json"@,
                    pairs: seq![
                        ("q"@, a.q@),
                        ("number_show"@, dec(limit as nat)),
                        ("start"@, dec(offset as nat)),
                        ("lang"@, ctx.lang@),
                    ] + opt_pair("archive_code"@, a.archive_code)
                      + opt_pair("archive_number"@, a.archive_number)
                      + opt_pair("inventory_number"@, a.inventory_number)
                      + opt_int_pair("year_start"@, a.year_start)
                      + opt_int_pair("year_end"@, a.year_end),
                    ttl: ttl_of(ctx.cache_ttl_override, TtlHint::Fixed(TimeSpan { secs: 21600, nanos: 0 })),
                    page_limit: Some(limit),
                    page_offset: Some(offset),
                })
            },
        }
    }
}

pub fn request(ctx: &ApiContext, args: &Args) -> (r: Result<ApiRequest>)
    ensures
        planned(r, tsearch_plan(*ctx, *args)),
{
    if args.q.unicode_len() == 0 {
        return Err(Error::new(ErrorKind::Validation, "q: must not be empty"));
    }
    let langs = ["nl", "en", "de", "fr"];
    assert(views(langs@) =~= seq!["nl"@, "en"@, "de"@, "fr"@]);
    if !str_in(ctx.lang.as_str(), &langs) {
        return Err(unsupported_lang_error(ctx.lang.as_str()));
    }
    let limit = match pick_limit(ctx.limit, DEFAULT_LIMIT, MAX_LIMIT) {
        Ok(n) => n,
        Err(LimitIssue::Zero) => return Err(Error::new(ErrorKind::Validation, "--limit: must be at least 1")),
        Err(LimitIssue::Over(_)) => return Err(Error::new(ErrorKind::Validation, "--limit: exceeds maximum of 100")),
    };
    let offset = match ctx.offset {
        Some(o) => o,
        None => 0,
    };
    let limit_s = u32_text(limit);
    let start_s = u32_text(offset);
    let mut params: Vec<(String, String)> = Vec::new();
    push_pair(&mut params, "q", args.q.as_str());
    push_pair(&mut params, "number_show", limit_s.as_str());
    push_pair(&mut params, "start", start_s.as_str());
    push_pair(&mut params, "lang", ctx.lang.as_str());
    push_opt(&mut params, "archive_code", &args.archive_code);
    push_opt(&mut params, "archive_number", &args.archive_number);
    push_opt(&mut params, "inventory_number", &args.inventory_number);
    push_opt_int(&mut params, "year_start", args.year_start);
    push_opt_int(&mut params, "year_end", args.year_end);
    assert(pair_views(params@) =~= tsearch_plan(*ctx, *args)->Ok_0.pairs);
    let ttl = resolve_ttl(ctx, TtlHint::Fixed(TimeSpan::from_secs(6 * 3600)));
    Ok(ApiRequest {
        path: "/transcriptions/search.json".to_owned(),
        params,
        ttl,
        page_limit: Some(limit),
        page_offset: Some(offset),
    })
}

/// The hits as a paginated list: the value under `response.docs` (an empty
/// list when absent), the total under `response.number_found`.
pub fn shape(body: &Json, limit: u32, offset: u32) -> (r: Renderable)
    ensures
        r.shape == Shape::List,
        r.body@ == value_at(body@, seq!["response"@, "docs"@]),
        r.paginated,
        r.limit == Some(limit),
        r.offset == Some(offset),
        r.total == opt_u64(body@.at(seq!["response"@, "number_found"@])),
{
    let docs = ["response", "docs"];
    let num = ["response", "number_found"];
    let items = value_at_or_empty(body, &docs);
    let total = match body.at(&num) {
        Some(v) => v.as_u64(),
        None => None,
    };
    proof {
        assert(views(docs@) =~= seq!["response"@, "docs"@]);
        assert(views(num@) =~= seq!["response"@, "number_found"@]);
    }
    Renderable::list(items, true, Some(limit), Some(offset)).with_total(total)
}

/// The schema entry of `transcripts search`.
pub fn schema() -> (r: Command)
    ensures
        r.name@ == "transcripts search"@,
        r.response_shape@ == "list"@,
        r.paginated,
        r.cache_ttl_seconds == Some(21600u64),
        r.args@.len() == 9,
        r.description@ == "Full-text search across page transcriptions of historical documents."@,
        !r.mutating,
        r.cache_ttl_strategy@ == "fixed"@,
        arg_views(r.args@) == seq![
            (ArgV { name: "q"@, ty: "string"@, required: true, positional: true, description: None::<Seq<char>>, default: None::<JsonV>, min: None::<i64>, max: None::<i64>, enum_values: None::<Seq<JsonV>> }),
            (ArgV { name: "--archive-code"@, ty: "string"@, required: false, positional: false, description: None::<Seq<char>>, default: None::<JsonV>, min: None::<i64>, max: None::<i64>, enum_values: None::<Seq<JsonV>> }),
            (ArgV { name: "--archive-number"@, ty: "string"@, required: false, positional: false, description: None::<Seq<char>>, default: None::<JsonV>, min: None::<i64>, max: None::<i64>, enum_values: None::<Seq<JsonV>> }),
            (ArgV { name: "--inventory-number"@, ty: "string"@, required: false, positional: false, description: None::<Seq<char>>, default: None::<JsonV>, min: None::<i64>, max: None::<i64>, enum_values: None::<Seq<JsonV>> }),
            (ArgV { name: "--year-start"@, ty: "integer"@, required: false, positional: false, description: None::<Seq<char>>, default: None::<JsonV>, min: None::<i64>, max: None::<i64>, enum_values: None::<Seq<JsonV>> }),
            (ArgV { name: "--year-end"@, ty: "integer"@, required: false, positional: false, description: None::<Seq<char>>, default: None::<JsonV>, min: None::<i64>, max: None::<i64>, enum_values: None::<Seq<JsonV>> }),
            (ArgV { name: "--limit"@, ty: "integer"@, required: false, positional: false, description: None::<Seq<char>>, default: Some(int_json(10)), min: Some(1i64), max: Some(100i64), enum_values: None::<Seq<JsonV>> }),
            (ArgV { name: "--offset"@, ty: "integer"@, required: false, positional: false, description: None::<Seq<char>>, default: Some(int_json(0)), min: Some(0i64), max: None::<i64>, enum_values: None::<Seq<JsonV>> }),
            (ArgV { name: "--lang"@, ty: "string"@, required: false, positional: false, description: None::<Seq<char>>, default: Some(JsonV::Str("nl"@)), min: None::<i64>, max: None::<i64>, enum_values: Some(seq![JsonV::Str("nl"@), JsonV::Str("en"@), JsonV::Str("de"@), JsonV::Str("fr"@)]) }),
        ],
        field_views(r.output_fields@) == seq![
            ("items"@, "array<transcription_match>"@, None::<Seq<char>>),
            ("total"@, "integer | null"@, None::<Seq<char>>),
            ("limit"@, "integer"@, None::<Seq<char>>),
            ("offset"@, "integer"@, None::<Seq<char>>),
            ("paginated"@, "boolean"@, None::<Seq<char>>),
        ],
{
    let mut args: Vec<Arg> = Vec::new();
    args.push(Arg::positional("q", "string"));
    assert(arg_view(args@[0]) == (ArgV { name: "q"@, ty: "string"@, required: true, positional: true, description: None::<Seq<char>>, default: None::<JsonV>, min: None::<i64>, max: None::<i64>, enum_values: None::<Seq<JsonV>> }));
    args.push(Arg::flag("--archive-code", "string", false));
    assert(arg_view(args@[1]) == (ArgV { name: "--archive-code"@, ty: "string"@, required: false, positional: false, description: None::<Seq<char>>, default: None::<JsonV>, min: None::<i64>, max: None::<i64>, enum_values: None::<Seq<JsonV>> }));
    args.push(Arg::flag("--archive-number", "string", false));
    assert(arg_view(args@[2]) == (ArgV { name: "--archive-number"@, ty: "string"@, required: false, positional: false, description: None::<Seq<char>>, default: None::<JsonV>, min: None::<i64>, max: None::<i64>, enum_values: None::<Seq<JsonV>> }));
    args.push(Arg::flag("--inventory-number", "string", false));
    assert(arg_view(args@[3]) == (ArgV { name: "--inventory-number"@, ty: "string"@, required: false, positional: false, description: None::<Seq<char>>, default: None::<JsonV>, min: None::<i64>, max: None::<i64>, enum_values: None::<Seq<JsonV>> }));
    args.push(Arg::flag("--year-start", "integer", false));
    assert(arg_view(args@[4]) == (ArgV { name: "--year-start"@, ty: "integer"@, required: false, positional: false, description: None::<Seq<char>>, default: None::<JsonV>, min: None::<i64>, max: None::<i64>, enum_values: None::<Seq<JsonV>> }));
    args.push(Arg::flag("--year-end", "integer", false));
    assert(arg_view(args@[5]) == (ArgV { name: "--year-end"@, ty: "integer"@, required: false, positional: false, description: None::<Seq<char>>, default: None::<JsonV>, min: None::<i64>, max: None::<i64>, enum_values: None::<Seq<JsonV>> }));
    let mut a = Arg::flag("--limit", "integer", false);
    a.default = Some(Json::from_i64(10));
    a.min = Some(1);
    a.max = Some(100);
    args.push(a);
    assert(arg_view(args@[6]) == (ArgV { name: "--limit"@, ty: "integer"@, required: false, positional: false, description: None::<Seq<char>>, default: Some(int_json(10)), min: Some(1i64), max: Some(100i64), enum_values: None::<Seq<JsonV>> }));
    let mut a = Arg::flag("--offset", "integer", false);
    a.default = Some(Json::from_i64(0));
    a.min = Some(0);
    args.push(a);
    assert(arg_view(args@[7]) == (ArgV { name: "--offset"@, ty: "integer"@, required: false, positional: false, description: None::<Seq<char>>, default: Some(int_json(0)), min: Some(0i64), max: None::<i64>, enum_values: None::<Seq<JsonV>> }));
    let mut a = Arg::flag("--lang", "string", false);
    a.default = Some(Json::string("nl"));
    a.enum_values = Some(str_values(&["nl", "en", "de", "fr"]));
    args.push(a);
    assert(models(args@[8].enum_values->0@) =~= seq![JsonV::Str("nl"@), JsonV::Str("en"@), JsonV::Str("de"@), JsonV::Str("fr"@)]);
    assert(arg_view(args@[8]) == (ArgV { name: "--lang"@, ty: "string"@, required: false, positional: false, description: None::<Seq<char>>, default: Some(JsonV::Str("nl"@)), min: None::<i64>, max: None::<i64>, enum_values: Some(seq![JsonV::Str("nl"@), JsonV::Str("en"@), JsonV::Str("de"@), JsonV::Str("fr"@)]) }));
    let mut output_fields: Vec<OutputField> = Vec::new();
    output_fields.push(OutputField { name: "items", ty: "array<transcription_match>", description: None });
    output_fields.push(OutputField { name: "total", ty: "integer | null", description: None });
    output_fields.push(OutputField { name: "limit", ty: "integer", description: None });
    output_fields.push(OutputField { name: "offset", ty: "integer", description: None });
    output_fields.push(OutputField { name: "paginated", ty: "boolean", description: None });
    assert(arg_views(args@) =~= seq![
        (ArgV { name: "q"@, ty: "string"@, required: true, positional: true, description: None::<Seq<char>>, default: None::<JsonV>, min: None::<i64>, max: None::<i64>, enum_values: None::<Seq<JsonV>> }),
        (ArgV { name: "--archive-code"@, ty: "string"@, required: false, positional: false, description: None::<Seq<char>>, default: None::<JsonV>, min: None::<i64>, max: None::<i64>, enum_values: None::<Seq<JsonV>> }),
        (ArgV { name: "--archive-number"@, ty: "string"@, required: false, positional: false, description: None::<Seq<char>>, default: None::<JsonV>, min: None::<i64>, max: None::<i64>, enum_values: None::<Seq<JsonV>> }),
        (ArgV { name: "--inventory-number"@, ty: "string"@, required: false, positional: false, description: None::<Seq<char>>, default: None::<JsonV>, min: None::<i64>, max: None::<i64>, enum_values: None::<Seq<JsonV>> }),
        (ArgV { name: "--year-start"@, ty: "integer"@, required: false, positional: false, description: None::<Seq<char>>, default: None::<JsonV>, min: None::<i64>, max: None::<i64>, enum_values: None::<Seq<JsonV>> }),
        (ArgV { name: "--year-end"@, ty: "integer"@, required: false, positional: false, description: None::<Seq<char>>, default: None::<JsonV>, min: None::<i64>, max: None::<i64>, enum_values: None::<Seq<JsonV>> }),
        (ArgV { name: "--limit"@, ty: "integer"@, required: false, positional: false, description: None::<Seq<char>>, default: Some(int_json(10)), min: Some(1i64), max: Some(100i64), enum_values: None::<Seq<JsonV>> }),
        (ArgV { name: "--offset"@, ty: "integer"@, required: false, positional: false, description: None::<Seq<char>>, default: Some(int_json(0)), min: Some(0i64), max: None::<i64>, enum_values: None::<Seq<JsonV>> }),
        (ArgV { name: "--lang"@, ty: "string"@, required: false, positional: false, description: None::<Seq<char>>, default: Some(JsonV::Str("nl"@)), min: None::<i64>, max: None::<i64>, enum_values: Some(seq![JsonV::Str("nl"@), JsonV::Str("en"@), JsonV::Str("de"@), JsonV::Str("fr"@)]) }),
    ]);
    assert(field_views(output_fields@) =~= seq![
        ("items"@, "array<transcription_match>"@, None::<Seq<char>>),
        ("total"@, "integer | null"@, None::<Seq<char>>),
        ("limit"@, "integer"@, None::<Seq<char>>),
        ("offset"@, "integer"@, None::<Seq<char>>),
        ("paginated"@, "boolean"@, None::<Seq<char>>),
    ]);
    Command {
        name: "transcripts search",
        description: "Full-text search across page transcriptions of historical documents.",
        mutating: false,
        response_shape: "list",
        paginated: true,
        cache_ttl_seconds: Some(21600),
        cache_ttl_strategy: "fixed",
        args,
        output_fields,
    }
}

} // verus!
