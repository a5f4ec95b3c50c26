//! `search`: free-text record search across all archives.
use vstd::prelude::*;
use crate::commands::{ApiRequest, LimitIssue, RequestV, limit_check, opt_int_pair, opt_pair, pair, pick_limit, planned, push_opt, push_opt_int, push_pair, u32_text, value_at, value_at_or_empty};
use crate::cache::pair_views;
use crate::client::TtlHint;
use crate::error::{Error, ErrorKind, Result};
use crate::json::{Json, JsonV, opt_u64, models};
use crate::output::{Renderable, Shape};
use crate::runtime::{ApiContext, resolve_ttl, ttl_of};
use crate::schema_cmd::{Arg, Command, OutputField, option_values, str_values, ArgV, arg_view, arg_views, field_views, int_json, option_json};
use crate::span::TimeSpan;
use crate::text::{cat3, dec, str_in, views};

verus! {

pub const MAX_LIMIT: u32 = 100;
pub const DEFAULT_LIMIT: u32 = 10;

#[derive(Debug, Clone)]
pub struct Args {
    pub name: String,
    pub archive: Option<String>,
    pub source_type: Option<String>,
    pub event_place: Option<String>,
    pub birth_place: Option<String>,
    pub relation_type: Option<String>,
    pub country: Option<String>,
    pub sort: Option<i32>,
}

impl Default for Args {
    /// Empty values, no filter.
    fn default() -> (r: Args)
        ensures
            r.name@.len() == 0,
            r.archive is None,
            r.source_type is None,
            r.event_place is None,
            r.birth_place is None,
            r.relation_type is None,
            r.country is None,
            r.sort is None,
    {
        Args {
            name: String::new(),
            archive: None,
            source_type: None,
            event_place: None,
            birth_place: None,
            relation_type: None,
            country: None,
            sort: None,
        }
    }
}

/// Search results live six hours.
pub fn default_ttl() -> (r: TtlHint)
    ensures
        r == TtlHint::Fixed(TimeSpan { secs: 21600, nanos: 0 }),
{
    TtlHint::Fixed(TimeSpan::from_secs(6 * 3600))
}

/// The languages the search serves.
pub open spec fn supported_lang(l: Seq<char>) -> bool {
    l == "nl"@ || l == "en"@
}

/// The request of `search`: Dutch or English; page size 1..=100 (default
/// 10), offset default 0; the filters that are given, in a fixed order.
pub open spec fn search_plan(ctx: ApiContext, a: Args) -> core::result::Result<RequestV, Seq<char>> {
    if !supported_lang(ctx.lang@) {
        Err("--lang: unsupported language '"@ + ctx.lang@ + "', supported: nl, en"@)
    } else {
        match limit_check(ctx.limit, DEFAULT_LIMIT, MAX_LIMIT) {
            Err(LimitIssue::Over(_)) => Err("--limit: exceeds maximum of 100"@),
            Err(LimitIssue::Zero) => Err("--limit: must be at least 1"@),
            Ok(limit) => {
                let offset = match ctx.offset { Some(o) => o, None => 0 };
                Ok(RequestV {
                    path: "/records/search.json"@,
                    pairs: seq![
                        ("name"@, a.name@),
                        ("number_show"@, dec(limit as nat)),
                        ("start"@, dec(offset as nat)),
                        ("lang"@, ctx.lang@),
                    ] + opt_pair("archive_code"@, a.archive)
                      + opt_pair("sourcetype"@, a.source_type)
                      + opt_pair("eventplace"@, a.event_place)
                      + opt_pair("birthplace"@, a.birth_place)
                      + opt_pair("relationtype"@, a.relation_type)
                      + opt_pair("country_code"@, a.country)
                      + opt_int_pair("sort"@, a.sort),
                    ttl: ttl_of(ctx.cache_ttl_override, TtlHint::Fixed(TimeSpan { secs: 21600, nanos: 0 })),
                    page_limit: Some(limit),
                    page_offset: Some(offset),
                })
            },
        }
    }
}

pub fn request(ctx: &ApiContext, args: &Args) -> (r: Result<ApiRequest>)
    ensures
        planned(r, search_plan(*ctx, *args)),
{
    let langs = ["nl", "en"];
    assert(views(langs@) =~= seq!["nl"@, "en"@]);
    if !str_in(ctx.lang.as_str(), &langs) {
        let m = cat3("--lang: unsupported language '", ctx.lang.as_str(), "', supported: nl, en");
        return Err(Error::new(ErrorKind::Validation, m.as_str()));
    }
    let limit = match pick_limit(ctx.limit, DEFAULT_LIMIT, MAX_LIMIT) {
        Ok(n) => n,
        Err(LimitIssue::Over(_)) => return Err(Error::new(ErrorKind::Validation, "--limit: exceeds maximum of 100")),
        Err(LimitIssue::Zero) => return Err(Error::new(ErrorKind::Validation, "--limit: must be at least 1")),
    };
    let offset = match ctx.offset {
        Some(o) => o,
        None => 0,
    };
    let limit_s = u32_text(limit);
    let start_s = u32_text(offset);
    let mut params: Vec<(String, String)> = Vec::new();
    push_pair(&mut params, "name", args.name.as_str());
    push_pair(&mut params, "number_show", limit_s.as_str());
    push_pair(&mut params, "start", start_s.as_str());
    push_pair(&mut params, "lang", ctx.lang.as_str());
    push_opt(&mut params, "archive_code", &args.archive);
    push_opt(&mut params, "sourcetype", &args.source_type);
    push_opt(&mut params, "eventplace", &args.event_place);
    push_opt(&mut params, "birthplace", &args.birth_place);
    push_opt(&mut params, "relationtype", &args.relation_type);
    push_opt(&mut params, "country_code", &args.country);
    push_opt_int(&mut params, "sort", args.sort);
    let ttl = resolve_ttl(ctx, default_ttl());
    proof {
        assert(pair_views(params@) =~= search_plan(*ctx, *args)->Ok_0.pairs);
    }
    Ok(ApiRequest {
        path: "/records/search.json".to_owned(),
        params,
        ttl,
        page_limit: Some(limit),
        page_offset: Some(offset),
    })
}

/// The search response as a paginated list: the value under
/// `response.docs` (an empty list when absent), the total under
/// `response.numFound`.
pub fn shape(body: &Json, limit: u32, offset: u32) -> (r: Renderable)
    ensures
        r.shape == Shape::List,
        r.body@ == value_at(body@, seq!["response"@, "docs"@]),
        r.paginated,
        r.limit == Some(limit),
        r.offset == Some(offset),
        r.total == opt_u64(body@.at(seq!["response"@, "numFound"@])),
{
    let docs = ["response", "docs"];
    let num = ["response", "numFound"];
    let items = value_at_or_empty(body, &docs);
    let total = match body.at(&num) {
        Some(v) => v.as_u64(),
        None => None,
    };
    proof {
        assert(views(docs@) =~= seq!["response"@, "docs"@]);
        assert(views(num@) =~= seq!["response"@, "numFound"@]);
    }
    Renderable::list(items, true, Some(limit), Some(offset)).with_total(total)
}

/// The schema entry of `search`.
pub fn schema() -> (r: Command)
    ensures
        r.name@ == "search"@,
        r.response_shape@ == "list"@,
        r.paginated,
        r.cache_ttl_seconds == Some(21600u64),
        r.args@.len() == 11,
        r.description@ == "Free-text record search across all archives."@,
        !r.mutating,
        r.cache_ttl_strategy@ == "fixed"@,
        arg_views(r.args@) == seq![
            (ArgV { name: "name"@, ty: "string"@, required: true, positional: true, description: None::<Seq<char>>, default: None::<JsonV>, min: None::<i64>, max: None::<i64>, enum_values: None::<Seq<JsonV>> }),
            (ArgV { name: "--archive"@, ty: "string"@, required: false, positional: false, description: None::<Seq<char>>, default: None::<JsonV>, min: None::<i64>, max: None::<i64>, enum_values: None::<Seq<JsonV>> }),
            (ArgV { name: "--source-type"@, ty: "string"@, required: false, positional: false, description: None::<Seq<char>>, default: None::<JsonV>, min: None::<i64>, max: None::<i64>, enum_values: None::<Seq<JsonV>> }),
            (ArgV { name: "--event-place"@, ty: "string"@, required: false, positional: false, description: None::<Seq<char>>, default: None::<JsonV>, min: None::<i64>, max: None::<i64>, enum_values: None::<Seq<JsonV>> }),
            (ArgV { name: "--birth-place"@, ty: "string"@, required: false, positional: false, description: None::<Seq<char>>, default: None::<JsonV>, min: None::<i64>, max: None::<i64>, enum_values: None::<Seq<JsonV>> }),
            (ArgV { name: "--relation-type"@, ty: "string"@, required: false, positional: false, description: None::<Seq<char>>, default: None::<JsonV>, min: None::<i64>, max: None::<i64>, enum_values: None::<Seq<JsonV>> }),
            (ArgV { name: "--country"@, ty: "string"@, required: false, positional: false, description: None::<Seq<char>>, default: None::<JsonV>, min: None::<i64>, max: None::<i64>, enum_values: None::<Seq<JsonV>> }),
            (ArgV { name: "--sort"@, ty: "integer"@, required: false, positional: false, description: None::<Seq<char>>, default: Some(int_json(1)), min: None::<i64>, max: None::<i64>, enum_values: Some(seq![option_json(-6i64, "source_desc"@, "Sort by source descending"@), option_json(-5i64, "place_desc"@, "Sort by place descending"@), option_json(-4i64, "date_desc"@, "Sort by date descending"@), option_json(-3i64, "event_desc"@, "Sort by event type descending"@), option_json(-2i64, "role_desc"@, "Sort by role descending"@), option_json(-1i64, "name_desc"@, "Sort by name descending"@), option_json(1, "name_asc"@, "Sort by name ascending (default)"@), option_json(2, "role_asc"@, "Sort by role ascending"@), option_json(3, "event_asc"@, "Sort by event type ascending"@), option_json(4, "date_asc"@, "Sort by date ascending"@), option_json(5, "place_asc"@, "Sort by place ascending"@), option_json(6, "source_asc"@, "Sort by source ascending"@)]) }),
            (ArgV { name: "--limit"@, ty: "integer"@, required: false, positional: false, description: None::<Seq<char>>, default: Some(int_json(10)), min: None::<i64>, max: Some(100i64), enum_values: None::<Seq<JsonV>> }),
            (ArgV { name: "--offset"@, ty: "integer"@, required: false, positional: false, description: None::<Seq<char>>, default: Some(int_json(0)), min: None::<i64>, max: None::<i64>, enum_values: None::<Seq<JsonV>> }),
            (ArgV { name: "--lang"@, ty: "string"@, required: false, positional: false, description: None::<Seq<char>>, default: Some(JsonV::Str("nl"@)), min: None::<i64>, max: None::<i64>, enum_values: Some(seq![JsonV::Str("nl"@), JsonV::Str("en"@)]) }),
        ],
        field_views(r.output_fields@) == seq![
            ("items"@, "array<record>"@, None::<Seq<char>>),
            ("total"@, "integer | null"@, None::<Seq<char>>),
            ("limit"@, "integer"@, None::<Seq<char>>),
            ("offset"@, "integer"@, None::<Seq<char>>),
            ("paginated"@, "boolean"@, None::<Seq<char>>),
        ],
{
    let mut args: Vec<Arg> = Vec::new();
    args.push(Arg::positional("name", "string"));
    assert(arg_view(args@[0]) == (ArgV { name: "name"@, ty: "string"@, required: true, positional: true, description: None::<Seq<char>>, default: None::<JsonV>, min: None::<i64>, max: None::<i64>, enum_values: None::<Seq<JsonV>> }));
    args.push(Arg::flag("--archive", "string", false));
    assert(arg_view(args@[1]) == (ArgV { name: "--archive"@, ty: "string"@, required: false, positional: false, description: None::<Seq<char>>, default: None::<JsonV>, min: None::<i64>, max: None::<i64>, enum_values: None::<Seq<JsonV>> }));
    args.push(Arg::flag("--source-type", "string", false));
    assert(arg_view(args@[2]) == (ArgV { name: "--source-type"@, ty: "string"@, required: false, positional: false, description: None::<Seq<char>>, default: None::<JsonV>, min: None::<i64>, max: None::<i64>, enum_values: None::<Seq<JsonV>> }));
    args.push(Arg::flag("--event-place", "string", false));
    assert(arg_view(args@[3]) == (ArgV { name: "--event-place"@, ty: "string"@, required: false, positional: false, description: None::<Seq<char>>, default: None::<JsonV>, min: None::<i64>, max: None::<i64>, enum_values: None::<Seq<JsonV>> }));
    args.push(Arg::flag("--birth-place", "string", false));
    assert(arg_view(args@[4]) == (ArgV { name: "--birth-place"@, ty: "string"@, required: false, positional: false, description: None::<Seq<char>>, default: None::<JsonV>, min: None::<i64>, max: None::<i64>, enum_values: None::<Seq<JsonV>> }));
    args.push(Arg::flag("--relation-type", "string", false));
    assert(arg_view(args@[5]) == (ArgV { name: "--relation-type"@, ty: "string"@, required: false, positional: false, description: None::<Seq<char>>, default: None::<JsonV>, min: None::<i64>, max: None::<i64>, enum_values: None::<Seq<JsonV>> }));
    args.push(Arg::flag("--country", "string", false));
    assert(arg_view(args@[6]) == (ArgV { name: "--country"@, ty: "string"@, required: false, positional: false, description: None::<Seq<char>>, default: None::<JsonV>, min: None::<i64>, max: None::<i64>, enum_values: None::<Seq<JsonV>> }));
    let mut a = Arg::flag("--sort", "integer", false);
    a.default = Some(Json::from_i64(1));
    a.enum_values = Some(option_values(&[
        (-6, "source_desc", "Sort by source descending"),
        (-5, "place_desc", "Sort by place descending"),
        (-4, "date_desc", "Sort by date descending"),
        (-3, "event_desc", "Sort by event type descending"),
        (-2, "role_desc", "Sort by role descending"),
        (-1, "name_desc", "Sort by name descending"),
        (1, "name_asc", "Sort by name ascending (default)"),
        (2, "role_asc", "Sort by role ascending"),
        (3, "event_asc", "Sort by event type ascending"),
        (4, "date_asc", "Sort by date ascending"),
        (5, "place_asc", "Sort by place ascending"),
        (6, "source_asc", "Sort by source ascending")
    ]));
    args.push(a);
    assert(models(args@[7].enum_values->0@) =~= seq![option_json(-6i64, "source_desc"@, "Sort by source descending"@), option_json(-5i64, "place_desc"@, "Sort by place descending"@), option_json(-4i64, "date_desc"@, "Sort by date descending"@), option_json(-3i64, "event_desc"@, "Sort by event type descending"@), option_json(-2i64, "role_desc"@, "Sort by role descending"@), option_json(-1i64, "name_desc"@, "Sort by name descending"@), option_json(1, "name_asc"@, "Sort by name ascending (default)"@), option_json(2, "role_asc"@, "Sort by role ascending"@), option_json(3, "event_asc"@, "Sort by event type ascending"@), option_json(4, "date_asc"@, "Sort by date ascending"@), option_json(5, "place_asc"@, "Sort by place ascending"@), option_json(6, "source_asc"@, "Sort by source ascending"@)]);
    assert(arg_view(args@[7]) == (ArgV { name: "--sort"@, ty: "integer"@, required: false, positional: false, description: None::<Seq<char>>, default: Some(int_json(1)), min: None::<i64>, max: None::<i64>, enum_values: Some(seq![option_json(-6i64, "source_desc"@, "Sort by source descending"@), option_json(-5i64, "place_desc"@, "Sort by place descending"@), option_json(-4i64, "date_desc"@, "Sort by date descending"@), option_json(-3i64, "event_desc"@, "Sort by event type descending"@), option_json(-2i64, "role_desc"@, "Sort by role descending"@), option_json(-1i64, "name_desc"@, "Sort by name descending"@), option_json(1, "name_asc"@, "Sort by name ascending (default)"@), option_json(2, "role_asc"@, "Sort by role ascending"@), option_json(3, "event_asc"@, "Sort by event type ascending"@), option_json(4, "date_asc"@, "Sort by date ascending"@), option_json(5, "place_asc"@, "Sort by place ascending"@), option_json(6, "source_asc"@, "Sort by source ascending"@)]) }));
    let mut a = Arg::flag("--limit", "integer", false);
    a.default = Some(Json::from_i64(10));
    a.max = Some(100);
    args.push(a);
    assert(arg_view(args@[8]) == (ArgV { name: "--limit"@, ty: "integer"@, required: false, positional: false, description: None::<Seq<char>>, default: Some(int_json(10)), min: None::<i64>, max: Some(100i64), enum_values: None::<Seq<JsonV>> }));
    let mut a = Arg::flag("--offset", "integer", false);
    a.default = Some(Json::from_i64(0));
    args.push(a);
    assert(arg_view(args@[9]) == (ArgV { name: "--offset"@, ty: "integer"@, required: false, positional: false, description: None::<Seq<char>>, default: Some(int_json(0)), min: None::<i64>, max: None::<i64>, enum_values: None::<Seq<JsonV>> }));
    let mut a = Arg::flag("--lang", "string", false);
    a.default = Some(Json::string("nl"));
    a.enum_values = Some(str_values(&["nl", "en"]));
    args.push(a);
    assert(models(args@[10].enum_values->0@) =~= seq![JsonV::Str("nl"@), JsonV::Str("en"@)]);
    assert(arg_view(args@[10]) == (ArgV { name: "--lang"@, ty: "string"@, required: false, positional: false, description: None::<Seq<char>>, default: Some(JsonV::Str("nl"@)), min: None::<i64>, max: None::<i64>, enum_values: Some(seq![JsonV::Str("nl"@), JsonV::Str("en"@)]) }));
    let mut output_fields: Vec<OutputField> = Vec::new();
    output_fields.push(OutputField { name: "items", ty: "array<record>", description: None });
    output_fields.push(OutputField { name: "total", ty: "integer | null", description: None });
    output_fields.push(OutputField { name: "limit", ty: "integer", description: None });
    output_fields.push(OutputField { name: "offset", ty: "integer", description: None });
    output_fields.push(OutputField { name: "paginated", ty: "boolean", description: None });
    assert(arg_views(args@) =~= seq![
        (ArgV { name: "name"@, ty: "string"@, required: true, positional: true, description: None::<Seq<char>>, default: None::<JsonV>, min: None::<i64>, max: None::<i64>, enum_values: None::<Seq<JsonV>> }),
        (ArgV { name: "--archive"@, ty: "string"@, required: false, positional: false, description: None::<Seq<char>>, default: None::<JsonV>, min: None::<i64>, max: None::<i64>, enum_values: None::<Seq<JsonV>> }),
        (ArgV { name: "--source-type"@, ty: "string"@, required: false, positional: false, description: None::<Seq<char>>, default: None::<JsonV>, min: None::<i64>, max: None::<i64>, enum_values: None::<Seq<JsonV>> }),
        (ArgV { name: "--event-place"@, ty: "string"@, required: false, positional: false, description: None::<Seq<char>>, default: None::<JsonV>, min: None::<i64>, max: None::<i64>, enum_values: None::<Seq<JsonV>> }),
        (ArgV { name: "--birth-place"@, ty: "string"@, required: false, positional: false, description: None::<Seq<char>>, default: None::<JsonV>, min: None::<i64>, max: None::<i64>, enum_values: None::<Seq<JsonV>> }),
        (ArgV { name: "--relation-type"@, ty: "string"@, required: false, positional: false, description: None::<Seq<char>>, default: None::<JsonV>, min: None::<i64>, max: None::<i64>, enum_values: None::<Seq<JsonV>> }),
        (ArgV { name: "--country"@, ty: "string"@, required: false, positional: false, description: None::<Seq<char>>, default: None::<JsonV>, min: None::<i64>, max: None::<i64>, enum_values: None::<Seq<JsonV>> }),
        (ArgV { name: "--sort"@, ty: "integer"@, required: false, positional: false, description: None::<Seq<char>>, default: Some(int_json(1)), min: None::<i64>, max: None::<i64>, enum_values: Some(seq![option_json(-6i64, "source_desc"@, "Sort by source descending"@), option_json(-5i64, "place_desc"@, "Sort by place descending"@), option_json(-4i64, "date_desc"@, "Sort by date descending"@), option_json(-3i64, "event_desc"@, "Sort by event type descending"@), option_json(-2i64, "role_desc"@, "Sort by role descending"@), option_json(-1i64, "name_desc"@, "Sort by name descending"@), option_json(1, "name_asc"@, "Sort by name ascending (default)"@), option_json(2, "role_asc"@, "Sort by role ascending"@), option_json(3, "event_asc"@, "Sort by event type ascending"@), option_json(4, "date_asc"@, "Sort by date ascending"@), option_json(5, "place_asc"@, "Sort by place ascending"@), option_json(6, "source_asc"@, "Sort by source ascending"@)]) }),
        (ArgV { name: "--limit"@, ty: "integer"@, required: false, positional: false, description: None::<Seq<char>>, default: Some(int_json(10)), min: None::<i64>, max: Some(100i64), enum_values: None::<Seq<JsonV>> }),
        (ArgV { name: "--offset"@, ty: "integer"@, required: false, positional: false, description: None::<Seq<char>>, default: Some(int_json(0)), min: None::<i64>, max: None::<i64>, enum_values: None::<Seq<JsonV>> }),
        (ArgV { name: "--lang"@, ty: "string"@, required: false, positional: false, description: None::<Seq<char>>, default: Some(JsonV::Str("nl"@)), min: None::<i64>, max: None::<i64>, enum_values: Some(seq![JsonV::Str("nl"@), JsonV::Str("en"@)]) }),
    ]);
    assert(field_views(output_fields@) =~= seq![
        ("items"@, "array<record>"@, None::<Seq<char>>),
        ("total"@, "integer | null"@, None::<Seq<char>>),
        ("limit"@, "integer"@, None::<Seq<char>>),
        ("offset"@, "integer"@, None::<Seq<char>>),
        ("paginated"@, "boolean"@, None::<Seq<char>>),
    ]);
    Command {
        name: "search",
        description: "Free-text record search across all archives.",
        mutating: false,
        response_shape: "list",
        paginated: true,
        cache_ttl_seconds: Some(21600),
        cache_ttl_strategy: "fixed",
        args,
        output_fields,
    }
}

} // verus!
