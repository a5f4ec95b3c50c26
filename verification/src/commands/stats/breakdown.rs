//! `stats breakdown`: record counts grouped by one dimension.
use vstd::prelude::*;
use crate::commands::{ApiRequest, LimitIssue, RequestV, lang_choice_error, lang_choice_message, limit_check, opt_int_pair, opt_pair, pick_limit, planned, push_opt, push_opt_int, push_pair, u32_text};
use crate::commands::stats::{check_year_span, event_type_ok, is_event_type, year_span_issue};
use crate::commands::stats::familynames::lang4_ok;
use crate::cache::pair_views;
use crate::client::TtlHint;
use crate::error::{Error, ErrorKind, Result};
use crate::json::{Json, deep_clone, JsonV, models};
use crate::output::{Renderable, Shape};
use crate::runtime::{ApiContext, resolve_ttl, ttl_of};
use crate::schema_cmd::{Arg, Command, OutputField, option_values, str_values, ArgV, arg_view, arg_views, field_views, int_json, option_json};
use crate::span::TimeSpan;
use crate::text::{cat2, debug_str, debug_text, dec, dec_int, i64_text, str_in, views};

verus! {

pub const MIN_YEAR: i32 = 1500;
pub const MAX_YEAR: i32 = 1960;
pub const MAX_LIMIT: u32 = 500;
pub const DEFAULT_LIMIT: u32 = 100;

#[derive(Debug, Clone)]
pub struct Args {
    pub group_by: String,
    pub archive: Option<String>,
    pub source_type: Option<String>,
    pub event_type: Option<i32>,
    pub place: Option<String>,
    pub year_start: Option<i32>,
    pub year_end: Option<i32>,
    pub min_count: Option<u32>,
    pub sort: Option<String>,
}

impl Default for Args {
    /// Empty values, no filter.
    fn default() -> (r: Args)
        ensures
            r.group_by@.len() == 0,
            r.archive is None,
            r.source_type is None,
            r.event_type is None,
            r.place is None,
            r.year_start is None,
            r.year_end is None,
            r.min_count is None,
            r.sort is None,
    {
        Args {
            group_by: String::new(),
            archive: None,
            source_type: None,
            event_type: None,
            place: None,
            year_start: None,
            year_end: None,
            min_count: None,
            sort: None,
        }
    }
}

/// The dimensions counts can be grouped by.
pub open spec fn group_by_ok(g: Seq<char>) -> bool {
    g == "archive"@ || g == "sourcetype"@ || g == "eventtype"@ || g == "place"@ || g == "year"@
}

/// The orders of the groups.
pub open spec fn sort_ok(s: Seq<char>) -> bool {
    s == "count_desc"@ || s == "count_asc"@ || s == "name_asc"@
}

/// The query of a breakdown: dimension, page size and language, then the
/// filters that are given.
pub open spec fn breakdown_pairs(a: Args, lang: Seq<char>, limit: u32) -> Seq<(Seq<char>, Seq<char>)> {
    seq![("group_by"@, a.group_by@), ("number_show"@, dec(limit as nat)), ("lang"@, lang)]
        + opt_pair("archive_code"@, a.archive)
        + opt_pair("sourcetype"@, a.source_type)
        + opt_int_pair("eventtype"@, a.event_type)
        + opt_pair("eventplace"@, a.place)
        + opt_int_pair("year_start"@, a.year_start)
        + opt_int_pair("year_end"@, a.year_end)
        + match a.min_count { Some(n) => seq![("min_count"@, dec(n as nat))], None => Seq::empty() }
        + opt_pair("sort"@, a.sort)
}

fn breakdown_params(args: &Args, lang: &str, limit: u32) -> (r: Vec<(String, String)>)
    ensures
        pair_views(r@) == breakdown_pairs(*args, lang@, limit),
{
    let limit_s = u32_text(limit);
    let mut params: Vec<(String, String)> = Vec::new();
    push_pair(&mut params, "group_by", args.group_by.as_str());
    push_pair(&mut params, "number_show", limit_s.as_str());
    push_pair(&mut params, "lang", lang);
    push_opt(&mut params, "archive_code", &args.archive);
    push_opt(&mut params, "sourcetype", &args.source_type);
    push_opt_int(&mut params, "eventtype", args.event_type);
    push_opt(&mut params, "eventplace", &args.place);
    push_opt_int(&mut params, "year_start", args.year_start);
    push_opt_int(&mut params, "year_end", args.year_end);
    let ghost before_min = pair_views(params@);
    match args.min_count {
        Some(n) => {
            let t = u32_text(n);
            push_pair(&mut params, "min_count", t.as_str());
        },
        None => {},
    }
    assert(pair_views(params@) =~= before_min + match args.min_count { Some(n) => seq![("min_count"@, dec(n as nat))], None => Seq::empty() });
    push_opt(&mut params, "sort", &args.sort);
    assert(pair_views(params@) =~= breakdown_pairs(*args, lang@, limit));
    params
}

/// The request of `stats breakdown`: no offset; a known dimension; Dutch,
/// English, German or French; a known event type; years within 1500..=1960
/// and in order; a positive minimum count; a known order; page size
/// 1..=500 (default 100); counts live a day.
pub open spec fn breakdown_plan(ctx: ApiContext, a: Args) -> core::result::Result<RequestV, Seq<char>> {
    if ctx.offset is Some {
        Err("--offset not supported by `stats breakdown`"@)
    } else if !group_by_ok(a.group_by@) {
        Err("group_by must be one of [\"archive\", \"sourcetype\", \"eventtype\", \"place\", \"year\"], got "@ + debug_text(a.group_by@))
    } else if !lang4_ok(ctx.lang@) {
        Err(lang_choice_message("[\"nl\", \"en\", \"de\", \"fr\"]"@, ctx.lang@))
    } else if a.event_type is Some && !event_type_ok(a.event_type->0) {
        Err("--event-type must be one of [0, 1, 2, 3, 6], got "@ + dec_int(a.event_type->0 as int))
    } else if year_span_issue(a.year_start, a.year_end, MIN_YEAR, MAX_YEAR) is Some {
        Err(year_span_issue(a.year_start, a.year_end, MIN_YEAR, MAX_YEAR)->0)
    } else if a.min_count == Some(0u32) {
        Err("--min-count must be >= 1"@)
    } else if a.sort is Some && !sort_ok(a.sort->0@) {
        Err("--sort must be one of [\"count_desc\", \"count_asc\", \"name_asc\"], got "@ + debug_text(a.sort->0@))
    } else {
        match limit_check(ctx.limit, DEFAULT_LIMIT, MAX_LIMIT) {
            Err(LimitIssue::Zero) => Err("--limit must be >= 1"@),
            Err(LimitIssue::Over(n)) => Err("--limit max is 500, got "@ + dec(n as nat)),
            Ok(limit) => Ok(RequestV {
                path: "/stats/breakdown.json"@,
                pairs: breakdown_pairs(a, ctx.lang@, limit),
                ttl: ttl_of(ctx.cache_ttl_override, TtlHint::Fixed(TimeSpan { secs: 86400, nanos: 0 })),
                page_limit: Some(limit),
                page_offset: None,
            }),
        }
    }
}

pub fn request(ctx: &ApiContext, args: &Args) -> (r: Result<ApiRequest>)
    ensures
        planned(r, breakdown_plan(*ctx, *args)),
{
    if ctx.offset.is_some() {
        return Err(Error::new(ErrorKind::Validation, "--offset not supported by `stats breakdown`"));
    }
    let groups = ["archive", "sourcetype", "eventtype", "place", "year"];
    assert(views(groups@) =~= seq!["archive"@, "sourcetype"@, "eventtype"@, "place"@, "year"@]);
    if !str_in(args.group_by.as_str(), &groups) {
        let d = debug_str(args.group_by.as_str());
        let m = cat2("group_by must be one of [\"archive\", \"sourcetype\", \"eventtype\", \"place\", \"year\"], got ", d.as_str());
        return Err(Error::new(ErrorKind::Validation, m.as_str()));
    }
    let langs = ["nl", "en", "de", "fr"];
    assert(views(langs@) =~= seq!["nl"@, "en"@, "de"@, "fr"@]);
    if !str_in(ctx.lang.as_str(), &langs) {
        return Err(lang_choice_error("[\"nl\", \"en\", \"de\", \"fr\"]", ctx.lang.as_str()));
    }
    if let Some(et) = args.event_type {
        if !is_event_type(et) {
            let t = i64_text(et as i64);
            let m = cat2("--event-type must be one of [0, 1, 2, 3, 6], got ", t.as_str());
            return Err(Error::new(ErrorKind::Validation, m.as_str()));
        }
    }
    if let Some(e) = check_year_span(args.year_start, args.year_end, MIN_YEAR, MAX_YEAR) {
        return Err(e);
    }
    if args.min_count == Some(0u32) {
        return Err(Error::new(ErrorKind::Validation, "--min-count must be >= 1"));
    }
    if let Some(s) = &args.sort {
        let sorts = ["count_desc", "count_asc", "name_asc"];
        assert(views(sorts@) =~= seq!["count_desc"@, "count_asc"@, "name_asc"@]);
        if !str_in(s.as_str(), &sorts) {
            let d = debug_str(s.as_str());
            let m = cat2("--sort must be one of [\"count_desc\", \"count_asc\", \"name_asc\"], got ", d.as_str());
            return Err(Error::new(ErrorKind::Validation, m.as_str()));
        }
    }
    let limit = match pick_limit(ctx.limit, DEFAULT_LIMIT, MAX_LIMIT) {
        Ok(n) => n,
        Err(LimitIssue::Zero) => return Err(Error::new(ErrorKind::Validation, "--limit must be >= 1")),
        Err(LimitIssue::Over(n)) => {
            let t = u32_text(n);
            let m = cat2("--limit max is 500, got ", t.as_str());
            return Err(Error::new(ErrorKind::Validation, m.as_str()));
        },
    };
    let params = breakdown_params(args, ctx.lang.as_str(), limit);
    let ttl = resolve_ttl(ctx, TtlHint::Fixed(TimeSpan::from_secs(24 * 3600)));
    Ok(ApiRequest {
        path: "/stats/breakdown.json".to_owned(),
        params,
        ttl,
        page_limit: Some(limit),
        page_offset: None,
    })
}

/// The breakdown document, as one nested value.
pub fn shape(body: &Json) -> (r: Renderable)
    ensures
        r.shape == Shape::SingleNested,
        r.body@ == body@,
        !r.paginated,
        r.limit is None,
        r.offset is None,
        r.total is None,
{
    Renderable::single_nested(deep_clone(body))
}

/// The schema entry of `stats breakdown`.
pub fn schema() -> (r: Command)
    ensures
        r.name@ == "stats breakdown"@,
        r.response_shape@ == "single-nested"@,
        !r.paginated,
        r.cache_ttl_seconds == Some(86400u64),
        r.args@.len() == 11,
        r.description@ == "Cross-tabulation aggregation grouped by one dimension."@,
        !r.mutating,
        r.cache_ttl_strategy@ == "fixed"@,
        arg_views(r.args@) == seq![
            (ArgV { name: "group_by"@, ty: "string"@, required: true, positional: true, description: Some("Dimension to group aggregation by: archive, sourcetype, eventtype, place, or year"@), default: None::<JsonV>, min: None::<i64>, max: None::<i64>, enum_values: Some(seq![JsonV::Str("archive"@), JsonV::Str("sourcetype"@), JsonV::Str("eventtype"@), JsonV::Str("place"@), JsonV::Str("year"@)]) }),
            (ArgV { name: "--archive"@, ty: "string"@, required: false, positional: false, description: Some("Filter results to a specific archive code"@), default: None::<JsonV>, min: None::<i64>, max: None::<i64>, enum_values: None::<Seq<JsonV>> }),
            (ArgV { name: "--source-type"@, ty: "string"@, required: false, positional: false, description: Some("Filter results to a specific source type"@), default: None::<JsonV>, min: None::<i64>, max: None::<i64>, enum_values: None::<Seq<JsonV>> }),
            (ArgV { name: "--event-type"@, ty: "integer"@, required: false, positional: false, description: Some("Filter by event type: 0=all, 1=birth, 2=marriage, 3=death, 6=notarial"@), default: None::<JsonV>, min: None::<i64>, max: None::<i64>, enum_values: Some(seq![option_json(0, "all"@, "All event types"@), option_json(1, "birth"@, "Geboorte"@), option_json(2, "marriage"@, "Huwelijk"@), option_json(3, "death"@, "Overlijden"@), option_json(6, "notarial"@, "Notariële akten"@)]) }),
            (ArgV { name: "--place"@, ty: "string"@, required: false, positional: false, description: Some("Filter results by event place name"@), default: None::<JsonV>, min: None::<i64>, max: None::<i64>, enum_values: None::<Seq<JsonV>> }),
            (ArgV { name: "--year-start"@, ty: "integer"@, required: false, positional: false, description: Some("Start of event year range (inclusive, 1500-1960)"@), default: None::<JsonV>, min: Some(1500i64), max: Some(1960i64), enum_values: None::<Seq<JsonV>> }),
            (ArgV { name: "--year-end"@, ty: "integer"@, required: false, positional: false, description: Some("End of event year range (inclusive, 1500-1960)"@), default: None::<JsonV>, min: Some(1500i64), max: Some(1960i64), enum_values: None::<Seq<JsonV>> }),
            (ArgV { name: "--min-count"@, ty: "integer"@, required: false, positional: false, description: Some("Exclude groups with fewer than this many records"@), default: None::<JsonV>, min: Some(1i64), max: None::<i64>, enum_values: None::<Seq<JsonV>> }),
            (ArgV { name: "--sort"@, ty: "string"@, required: false, positional: false, description: Some("Sort order for results: count_desc, count_asc, or name_asc"@), default: Some(JsonV::Str("count_desc"@)), min: None::<i64>, max: None::<i64>, enum_values: Some(seq![JsonV::Str("count_desc"@), JsonV::Str("count_asc"@), JsonV::Str("name_asc"@)]) }),
            (ArgV { name: "--limit"@, ty: "integer"@, required: false, positional: false, description: Some("Maximum number of groups to return (1-500)"@), default: Some(int_json(100)), min: Some(1i64), max: Some(500i64), enum_values: None::<Seq<JsonV>> }),
            (ArgV { name: "--lang"@, ty: "string"@, required: false, positional: false, description: Some("Response language for labels and descriptions"@), default: Some(JsonV::Str("nl"@)), min: None::<i64>, max: None::<i64>, enum_values: Some(seq![JsonV::Str("nl"@), JsonV::Str("en"@), JsonV::Str("de"@), JsonV::Str("fr"@)]) }),
        ],
        field_views(r.output_fields@) == seq![
            ("group_by"@, "string"@, Some("Dimension used for grouping in this response"@)),
            ("filters"@, "object"@, Some("Active filter values applied to this aggregation"@)),
            ("total_records"@, "integer"@, Some("Total number of records across all groups"@)),
            ("total_groups"@, "integer"@, Some("Total number of distinct groups found"@)),
            ("results"@, "array<group>"@, Some("Aggregated group objects, each with a label and count"@)),
        ],
{
    let mut args: Vec<Arg> = Vec::new();
    let mut a = Arg::positional("group_by", "string");
    a.description = Some("Dimension to group aggregation by: archive, sourcetype, eventtype, place, or year");
    a.enum_values = Some(str_values(&["archive", "sourcetype", "eventtype", "place", "year"]));
    args.push(a);
    assert(models(args@[0].enum_values->0@) =~= seq![JsonV::Str("archive"@), JsonV::Str("sourcetype"@), JsonV::Str("eventtype"@), JsonV::Str("place"@), JsonV::Str("year"@)]);
    assert(arg_view(args@[0]) == (ArgV { name: "group_by"@, ty: "string"@, required: true, positional: true, description: Some("Dimension to group aggregation by: archive, sourcetype, eventtype, place, or year"@), default: None::<JsonV>, min: None::<i64>, max: None::<i64>, enum_values: Some(seq![JsonV::Str("archive"@), JsonV::Str("sourcetype"@), JsonV::Str("eventtype"@), JsonV::Str("place"@), JsonV::Str("year"@)]) }));
    let mut a = Arg::flag("--archive", "string", false);
    a.description = Some("Filter results to a specific archive code");
    args.push(a);
    assert(arg_view(args@[1]) == (ArgV { name: "--archive"@, ty: "string"@, required: false, positional: false, description: Some("Filter results to a specific archive code"@), default: None::<JsonV>, min: None::<i64>, max: None::<i64>, enum_values: None::<Seq<JsonV>> }));
    let mut a = Arg::flag("--source-type", "string", false);
    a.description = Some("Filter results to a specific source type");
    args.push(a);
    assert(arg_view(args@[2]) == (ArgV { name: "--source-type"@, ty: "string"@, required: false, positional: false, description: Some("Filter results to a specific source type"@), default: None::<JsonV>, min: None::<i64>, max: None::<i64>, enum_values: None::<Seq<JsonV>> }));
    let mut a = Arg::flag("--event-type", "integer", false);
    a.description = Some("Filter by event type: 0=all, 1=birth, 2=marriage, 3=death, 6=notarial");
    a.enum_values = Some(option_values(&[
        (0, "all", "All event types"),
        (1, "birth", "Geboorte"),
        (2, "marriage", "Huwelijk"),
        (3, "death", "Overlijden"),
        (6, "notarial", "Notariële akten")
    ]));
    args.push(a);
    assert(models(args@[3].enum_values->0@) =~= seq![option_json(0, "all"@, "All event types"@), option_json(1, "birth"@, "Geboorte"@), option_json(2, "marriage"@, "Huwelijk"@), option_json(3, "death"@, "Overlijden"@), option_json(6, "notarial"@, "Notariële akten"@)]);
    assert(arg_view(args@[3]) == (ArgV { name: "--event-type"@, ty: "integer"@, required: false, positional: false, description: Some("Filter by event type: 0=all, 1=birth, 2=marriage, 3=death, 6=notarial"@), default: None::<JsonV>, min: None::<i64>, max: None::<i64>, enum_values: Some(seq![option_json(0, "all"@, "All event types"@), option_json(1, "birth"@, "Geboorte"@), option_json(2, "marriage"@, "Huwelijk"@), option_json(3, "death"@, "Overlijden"@), option_json(6, "notarial"@, "Notariële akten"@)]) }));
    let mut a = Arg::flag("--place", "string", false);
    a.description = Some("Filter results by event place name");
    args.push(a);
    assert(arg_view(args@[4]) == (ArgV { name: "--place"@, ty: "string"@, required: false, positional: false, description: Some("Filter results by event place name"@), default: None::<JsonV>, min: None::<i64>, max: None::<i64>, enum_values: None::<Seq<JsonV>> }));
    let mut a = Arg::flag("--year-start", "integer", false);
    a.description = Some("Start of event year range (inclusive, 1500-1960)");
    a.min = Some(1500);
    a.max = Some(1960);
    args.push(a);
    assert(arg_view(args@[5]) == (ArgV { name: "--year-start"@, ty: "integer"@, required: false, positional: false, description: Some("Start of event year range (inclusive, 1500-1960)"@), default: None::<JsonV>, min: Some(1500i64), max: Some(1960i64), enum_values: None::<Seq<JsonV>> }));
    let mut a = Arg::flag("--year-end", "integer", false);
    a.description = Some("End of event year range (inclusive, 1500-1960)");
    a.min = Some(1500);
    a.max = Some(1960);
    args.push(a);
    assert(arg_view(args@[6]) == (ArgV { name: "--year-end"@, ty: "integer"@, required: false, positional: false, description: Some("End of event year range (inclusive, 1500-1960)"@), default: None::<JsonV>, min: Some(1500i64), max: Some(1960i64), enum_values: None::<Seq<JsonV>> }));
    let mut a = Arg::flag("--min-count", "integer", false);
    a.description = Some("Exclude groups with fewer than this many records");
    a.min = Some(1);
    args.push(a);
    assert(arg_view(args@[7]) == (ArgV { name: "--min-count"@, ty: "integer"@, required: false, positional: false, description: Some("Exclude groups with fewer than this many records"@), default: None::<JsonV>, min: Some(1i64), max: None::<i64>, enum_values: None::<Seq<JsonV>> }));
    let mut a = Arg::flag("--sort", "string", false);
    a.description = Some("Sort order for results: count_desc, count_asc, or name_asc");
    a.default = Some(Json::string("count_desc"));
    a.enum_values = Some(str_values(&["count_desc", "count_asc", "name_asc"]));
    args.push(a);
    assert(models(args@[8].enum_values->0@) =~= seq![JsonV::Str("count_desc"@), JsonV::Str("count_asc"@), JsonV::Str("name_asc"@)]);
    assert(arg_view(args@[8]) == (ArgV { name: "--sort"@, ty: "string"@, required: false, positional: false, description: Some("Sort order for results: count_desc, count_asc, or name_asc"@), default: Some(JsonV::Str("count_desc"@)), min: None::<i64>, max: None::<i64>, enum_values: Some(seq![JsonV::Str("count_desc"@), JsonV::Str("count_asc"@), JsonV::Str("name_asc"@)]) }));
    let mut a = Arg::flag("--limit", "integer", false);
    a.description = Some("Maximum number of groups to return (1-500)");
    a.default = Some(Json::from_i64(100));
    a.min = Some(1);
    a.max = Some(500);
    args.push(a);
    assert(arg_view(args@[9]) == (ArgV { name: "--limit"@, ty: "integer"@, required: false, positional: false, description: Some("Maximum number of groups to return (1-500)"@), default: Some(int_json(100)), min: Some(1i64), max: Some(500i64), enum_values: None::<Seq<JsonV>> }));
    let mut a = Arg::flag("--lang", "string", false);
    a.description = Some("Response language for labels and descriptions");
    a.default = Some(Json::string("nl"));
    a.enum_values = Some(str_values(&["nl", "en", "de", "fr"]));
    args.push(a);
    assert(models(args@[10].enum_values->0@) =~= seq![JsonV::Str("nl"@), JsonV::Str("en"@), JsonV::Str("de"@), JsonV::Str("fr"@)]);
    assert(arg_view(args@[10]) == (ArgV { name: "--lang"@, ty: "string"@, required: false, positional: false, description: Some("Response language for labels and descriptions"@), default: Some(JsonV::Str("nl"@)), min: None::<i64>, max: None::<i64>, enum_values: Some(seq![JsonV::Str("nl"@), JsonV::Str("en"@), JsonV::Str("de"@), JsonV::Str("fr"@)]) }));
    let mut output_fields: Vec<OutputField> = Vec::new();
    output_fields.push(OutputField { name: "group_by", ty: "string", description: Some("Dimension used for grouping in this response") });
    output_fields.push(OutputField { name: "filters", ty: "object", description: Some("Active filter values applied to this aggregation") });
    output_fields.push(OutputField { name: "total_records", ty: "integer", description: Some("Total number of records across all groups") });
    output_fields.push(OutputField { name: "total_groups", ty: "integer", description: Some("Total number of distinct groups found") });
    output_fields.push(OutputField { name: "results", ty: "array<group>", description: Some("Aggregated group objects, each with a label and count") });
    assert(arg_views(args@) =~= seq![
        (ArgV { name: "group_by"@, ty: "string"@, required: true, positional: true, description: Some("Dimension to group aggregation by: archive, sourcetype, eventtype, place, or year"@), default: None::<JsonV>, min: None::<i64>, max: None::<i64>, enum_values: Some(seq![JsonV::Str("archive"@), JsonV::Str("sourcetype"@), JsonV::Str("eventtype"@), JsonV::Str("place"@), JsonV::Str("year"@)]) }),
        (ArgV { name: "--archive"@, ty: "string"@, required: false, positional: false, description: Some("Filter results to a specific archive code"@), default: None::<JsonV>, min: None::<i64>, max: None::<i64>, enum_values: None::<Seq<JsonV>> }),
        (ArgV { name: "--source-type"@, ty: "string"@, required: false, positional: false, description: Some("Filter results to a specific source type"@), default: None::<JsonV>, min: None::<i64>, max: None::<i64>, enum_values: None::<Seq<JsonV>> }),
        (ArgV { name: "--event-type"@, ty: "integer"@, required: false, positional: false, description: Some("Filter by event type: 0=all, 1=birth, 2=marriage, 3=death, 6=notarial"@), default: None::<JsonV>, min: None::<i64>, max: None::<i64>, enum_values: Some(seq![option_json(0, "all"@, "All event types"@), option_json(1, "birth"@, "Geboorte"@), option_json(2, "marriage"@, "Huwelijk"@), option_json(3, "death"@, "Overlijden"@), option_json(6, "notarial"@, "Notariële akten"@)]) }),
        (ArgV { name: "--place"@, ty: "string"@, required: false, positional: false, description: Some("Filter results by event place name"@), default: None::<JsonV>, min: None::<i64>, max: None::<i64>, enum_values: None::<Seq<JsonV>> }),
        (ArgV { name: "--year-start"@, ty: "integer"@, required: false, positional: false, description: Some("Start of event year range (inclusive, 1500-1960)"@), default: None::<JsonV>, min: Some(1500i64), max: Some(1960i64), enum_values: None::<Seq<JsonV>> }),
        (ArgV { name: "--year-end"@, ty: "integer"@, required: false, positional: false, description: Some("End of event year range (inclusive, 1500-1960)"@), default: None::<JsonV>, min: Some(1500i64), max: Some(1960i64), enum_values: None::<Seq<JsonV>> }),
        (ArgV { name: "--min-count"@, ty: "integer"@, required: false, positional: false, description: Some("Exclude groups with fewer than this many records"@), default: None::<JsonV>, min: Some(1i64), max: None::<i64>, enum_values: None::<Seq<JsonV>> }),
        (ArgV { name: "--sort"@, ty: "string"@, required: false, positional: false, description: Some("Sort order for results: count_desc, count_asc, or name_asc"@), default: Some(JsonV::Str("count_desc"@)), min: None::<i64>, max: None::<i64>, enum_values: Some(seq![JsonV::Str("count_desc"@), JsonV::Str("count_asc"@), JsonV::Str("name_asc"@)]) }),
        (ArgV { name: "--limit"@, ty: "integer"@, required: false, positional: false, description: Some("Maximum number of groups to return (1-500)"@), default: Some(int_json(100)), min: Some(1i64), max: Some(500i64), enum_values: None::<Seq<JsonV>> }),
        (ArgV { name: "--lang"@, ty: "string"@, required: false, positional: false, description: Some("Response language for labels and descriptions"@), default: Some(JsonV::Str("nl"@)), min: None::<i64>, max: None::<i64>, enum_values: Some(seq![JsonV::Str("nl"@), JsonV::Str("en"@), JsonV::Str("de"@), JsonV::Str("fr"@)]) }),
    ]);
    assert(field_views(output_fields@) =~= seq![
        ("group_by"@, "string"@, Some("Dimension used for grouping in this response"@)),
        ("filters"@, "object"@, Some("Active filter values applied to this aggregation"@)),
        ("total_records"@, "integer"@, Some("Total number of records across all groups"@)),
        ("total_groups"@, "integer"@, Some("Total number of distinct groups found"@)),
        ("results"@, "array<group>"@, Some("Aggregated group objects, each with a label and count"@)),
    ]);
    Command {
        name: "stats breakdown",
        description: "Cross-tabulation aggregation grouped by one dimension.",
        mutating: false,
        response_shape: "single-nested",
        paginated: false,
        cache_ttl_seconds: Some(86400),
        cache_ttl_strategy: "fixed",
        args,
        output_fields,
    }
}

} // verus!
