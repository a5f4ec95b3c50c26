//! The statistics commands: the request each sends and what each makes of a response.
#![allow(dead_code, unused_imports)]
use openarchieven::client::{attempt_outcome, CacheMode};
use openarchieven::commands::ApiRequest;
use openarchieven::error::{Error, ErrorKind};
use openarchieven::json::{Json, JsonNumber};
use openarchieven::output::{Renderable, Shape};
use openarchieven::runtime::ApiContext;
use openarchieven::span::TimeSpan;
use serde_json::Value;

fn lib(v: &Value) -> Json {
    match v {
        Value::Null => Json::Null,
        Value::Bool(b) => Json::Bool(*b),
        Value::Number(n) => Json::Number(JsonNumber { text: n.to_string(), as_i64: n.as_i64(), as_u64: n.as_u64() }),
        Value::String(s) => Json::Str(s.clone()),
        Value::Array(a) => Json::Array(a.iter().map(lib).collect()),
        Value::Object(m) => Json::Object(m.iter().map(|(k, v)| (k.clone(), lib(v))).collect()),
    }
}

fn back(v: &Json) -> Value {
    match v {
        Json::Null => Value::Null,
        Json::Bool(b) => Value::Bool(*b),
        Json::Number(n) => serde_json::from_str(&n.text).unwrap(),
        Json::Str(s) => Value::String(s.clone()),
        Json::Array(a) => Value::Array(a.iter().map(back).collect()),
        Json::Object(m) => Value::Object(m.iter().map(|(k, v)| (k.clone(), back(v))).collect()),
    }
}

/// What the client hands on for a response with this status and body.
fn reply(status: u16, text: &str) -> Result<Json, Error> {
    let parsed = serde_json::from_str::<Value>(text).map(|v| lib(&v)).map_err(|e| e.to_string());
    attempt_outcome(status, text.as_bytes(), parsed, None)
}

fn ok_body(text: &str) -> Json {
    reply(200, text).unwrap()
}

fn ctx() -> ApiContext {
    ApiContext {
        timeout: TimeSpan { secs: 2, nanos: 0 },
        cache_mode: CacheMode::Default,
        cache_ttl_override: None,
        cache_dir: None,
        fields: None,
        limit: None,
        offset: None,
        lang: "nl".into(),
        quiet: false,
    }
}

fn param<'a>(req: &'a ApiRequest, k: &str) -> Option<&'a str> {
    req.params.iter().rev().find(|(name, _)| name == k).map(|(_, v)| v.as_str())
}

fn envelope(r: &Renderable) -> Value {
    back(&r.list_envelope(r.total))
}

fn body(r: &Renderable) -> Value {
    back(&r.body)
}
use openarchieven::commands::stats::archive_stat::ArchiveStatArgs;
use openarchieven::commands::stats::{breakdown, comments, events, familynames, firstnames, professions, records, sources};

// ---------------------------------------------------------------- per-archive counts

#[test]
fn stats_records_returns_list_with_total() {
    let req = records::request(&ctx(), &ArchiveStatArgs::default()).unwrap();
    assert_eq!(req.path, "/stats/records.json");
    let b = ok_body(r#"{"records": [{"archive": "elo", "count": 1000}, {"archive": "saa", "count": 5000}]}"#);
    let r = records::shape(&b);
    assert_eq!(r.shape, Shape::List);
    assert_eq!(r.total, Some(2));
    let env = envelope(&r);
    assert_eq!(env["total"], 2);
    assert_eq!(env["paginated"], false);
    assert_eq!(env["items"][0]["archive"], "elo");
}

#[test]
fn stats_sources_filters_by_archive() {
    let req = sources::request(&ctx(), &ArchiveStatArgs { archive: Some("elo".into()) }).unwrap();
    assert_eq!(req.path, "/stats/sources.json");
    assert_eq!(param(&req, "archive_code"), Some("elo"));
    let r = sources::shape(&ok_body(r#"{"sources": []}"#));
    assert_eq!(r.shape, Shape::List);
    assert_eq!(r.total, Some(0));
}

#[test]
fn stats_events_basic() {
    let req = events::request(&ctx(), &ArchiveStatArgs::default()).unwrap();
    assert_eq!(req.path, "/stats/events.json");
    let r = events::shape(&ok_body(r#"{"events": [{"e": "birth"}, {"e": "death"}, {"e": "marriage"}]}"#));
    assert_eq!(r.total, Some(3));
}

#[test]
fn stats_comments_basic() {
    let req = comments::request(&ctx(), &ArchiveStatArgs::default()).unwrap();
    assert_eq!(req.path, "/stats/comments.json");
    let r = comments::shape(&ok_body(r#"{"comments": [{"c": 1}]}"#));
    assert_eq!(r.total, Some(1));
}

#[test]
fn stats_records_rejects_limit() {
    let mut c = ctx();
    c.limit = Some(50);
    let err = records::request(&c, &ArchiveStatArgs::default()).unwrap_err();
    assert_eq!(err.kind(), ErrorKind::Validation);
    assert!(err.message().contains("--limit") || err.message().contains("--offset"));
}

#[test]
fn stats_records_rejects_lang_other_than_nl() {
    let mut c = ctx();
    c.lang = "en".into();
    let err = records::request(&c, &ArchiveStatArgs::default()).unwrap_err();
    assert_eq!(err.kind(), ErrorKind::Validation);
    assert!(err.message().contains("--lang"));
}

#[test]
fn stats_records_accepts_fields() {
    let mut c = ctx();
    c.fields = Some(vec!["archive".into()]);
    let req = records::request(&c, &ArchiveStatArgs::default()).unwrap();
    assert_eq!(req.path, "/stats/records.json");
    assert!(req.params.is_empty());
}

#[test]
fn stats_bare_array_body_is_taken_as_rows() {
    let r = records::shape(&ok_body(r#"[{"archive": "elo", "count": 1}]"#));
    assert_eq!(r.total, Some(1));
    assert_eq!(envelope(&r)["items"][0]["archive"], "elo");
}

// ---------------------------------------------------------------- breakdown

fn args(group_by: &str) -> breakdown::Args {
    breakdown::Args { group_by: group_by.into(), ..Default::default() }
}

#[test]
fn breakdown_sends_all_filters_with_correct_wire_keys() {
    let a = breakdown::Args {
        group_by: "archive".into(),
        archive: Some("elo".into()),
        source_type: Some("Bidprentjesverzameling".into()),
        event_type: Some(2),
        place: Some("Amsterdam".into()),
        year_start: Some(1700),
        year_end: Some(1800),
        min_count: Some(10),
        sort: Some("count_desc".into()),
    };
    let req = breakdown::request(&ctx(), &a).unwrap();
    assert_eq!(req.path, "/stats/breakdown.json");
    for (k, v) in [
        ("group_by", "archive"),
        ("number_show", "100"),
        ("lang", "nl"),
        ("archive_code", "elo"),
        ("sourcetype", "Bidprentjesverzameling"),
        ("eventtype", "2"),
        ("eventplace", "Amsterdam"),
        ("year_start", "1700"),
        ("year_end", "1800"),
        ("min_count", "10"),
        ("sort", "count_desc"),
    ] {
        assert_eq!(param(&req, k), Some(v), "{k}");
    }
    let b = ok_body(
        r#"{
            "group_by": "archive",
            "filters": {"sourcetype": "Bidprentjesverzameling"},
            "total_records": 2991005,
            "total_groups": 47,
            "results": [{"key": "hwh", "label": "Heemkundekring Weerderheem", "count": 201236}]
        }"#,
    );
    let r = breakdown::shape(&b);
    assert_eq!(r.shape, Shape::SingleNested);
    let body = body(&r);
    assert_eq!(body["group_by"], "archive");
    assert_eq!(body["total_records"], 2991005);
    assert_eq!(body["total_groups"], 47);
    assert_eq!(body["results"][0]["key"], "hwh");
}

#[test]
fn breakdown_default_limit_is_100() {
    let req = breakdown::request(&ctx(), &args("year")).unwrap();
    assert_eq!(param(&req, "group_by"), Some("year"));
    assert_eq!(param(&req, "number_show"), Some("100"));
    let r = breakdown::shape(&ok_body(r#"{"group_by": "year", "total_records": 0, "total_groups": 0, "results": []}"#));
    assert_eq!(r.shape, Shape::SingleNested);
}

#[test]
fn breakdown_rejects_unknown_group_by() {
    let err = breakdown::request(&ctx(), &args("bogus")).unwrap_err();
    assert_eq!(err.kind(), ErrorKind::Validation);
    assert!(err.message().contains("group_by"));
}

#[test]
fn breakdown_rejects_limit_over_500() {
    let mut c = ctx();
    c.limit = Some(501);
    let err = breakdown::request(&c, &args("archive")).unwrap_err();
    assert_eq!(err.kind(), ErrorKind::Validation);
    assert!(err.message().contains("--limit"));
}

#[test]
fn breakdown_rejects_zero_limit() {
    let mut c = ctx();
    c.limit = Some(0);
    let err = breakdown::request(&c, &args("archive")).unwrap_err();
    assert_eq!(err.kind(), ErrorKind::Validation);
    assert!(err.message().contains("--limit"));
}

#[test]
fn breakdown_rejects_offset() {
    let mut c = ctx();
    c.offset = Some(5);
    let err = breakdown::request(&c, &args("archive")).unwrap_err();
    assert_eq!(err.kind(), ErrorKind::Validation);
    assert!(err.message().contains("--offset"));
}

#[test]
fn breakdown_rejects_unknown_sort() {
    let mut a = args("archive");
    a.sort = Some("bogus".into());
    let err = breakdown::request(&ctx(), &a).unwrap_err();
    assert_eq!(err.kind(), ErrorKind::Validation);
    assert!(err.message().contains("--sort"));
}

#[test]
fn breakdown_rejects_unknown_lang() {
    let mut c = ctx();
    c.lang = "es".into();
    let err = breakdown::request(&c, &args("archive")).unwrap_err();
    assert_eq!(err.kind(), ErrorKind::Validation);
    assert!(err.message().contains("--lang"));
}

#[test]
fn breakdown_rejects_event_type_outside_enum() {
    let mut a = args("archive");
    a.event_type = Some(5);
    let err = breakdown::request(&ctx(), &a).unwrap_err();
    assert_eq!(err.kind(), ErrorKind::Validation);
    assert!(err.message().contains("--event-type"));
}

#[test]
fn breakdown_rejects_year_start_below_range() {
    let mut a = args("archive");
    a.year_start = Some(1499);
    let err = breakdown::request(&ctx(), &a).unwrap_err();
    assert_eq!(err.kind(), ErrorKind::Validation);
    assert!(err.message().contains("--year-start"));
}

#[test]
fn breakdown_rejects_year_end_above_range() {
    let mut a = args("archive");
    a.year_end = Some(1961);
    let err = breakdown::request(&ctx(), &a).unwrap_err();
    assert_eq!(err.kind(), ErrorKind::Validation);
    assert!(err.message().contains("--year-end"));
}

#[test]
fn breakdown_rejects_year_start_after_year_end() {
    let mut a = args("archive");
    a.year_start = Some(1900);
    a.year_end = Some(1800);
    let err = breakdown::request(&ctx(), &a).unwrap_err();
    assert_eq!(err.kind(), ErrorKind::Validation);
    assert!(err.message().contains("--year-start"));
}

#[test]
fn breakdown_rejects_zero_min_count() {
    let mut a = args("archive");
    a.min_count = Some(0);
    let err = breakdown::request(&ctx(), &a).unwrap_err();
    assert_eq!(err.kind(), ErrorKind::Validation);
    assert!(err.message().contains("--min-count"));
}

#[test]
fn breakdown_schema_returns_correct_command_name() {
    let cmd = breakdown::schema();
    assert_eq!(cmd.name, "stats breakdown");
    assert_eq!(cmd.response_shape, "single-nested");
    let gb = cmd.args.iter().find(|a| a.name == "group_by").unwrap();
    assert!(gb.required);
    assert!(gb.positional);
    assert_eq!(gb.enum_values.as_ref().unwrap().len(), 5);
    let sort = cmd.args.iter().find(|a| a.name == "--sort").unwrap();
    assert_eq!(sort.enum_values.as_ref().unwrap().len(), 3);
}

// ---------------------------------------------------------------- familynames

#[test]
fn familynames_paginates_with_filters() {
    let mut c = ctx();
    c.limit = Some(20);
    c.lang = "en".into();
    let a = familynames::Args { place: Some("Leiden".into()), year_start: Some(1700), year_end: Some(1800), event_type: Some(1) };
    let req = familynames::request(&c, &a).unwrap();
    assert_eq!(req.path, "/stats/familynames.json");
    for (k, v) in [
        ("eventplace", "Leiden"),
        ("eventyearstart", "1700"),
        ("eventyearend", "1800"),
        ("eventtype", "1"),
        ("number_show", "20"),
        ("lang", "en"),
    ] {
        assert_eq!(param(&req, k), Some(v), "{k}");
    }
    let r = familynames::shape(&ok_body(r#"{"familynames": [{"name": "Jansen", "count": 42}]}"#), req.page_limit.unwrap());
    assert_eq!(r.shape, Shape::List);
    assert_eq!(r.total, Some(1));
    assert_eq!(r.limit, Some(20));
}

#[test]
fn familynames_default_limit_is_20() {
    let req = familynames::request(&ctx(), &familynames::Args::default()).unwrap();
    assert_eq!(param(&req, "number_show"), Some("20"));
    let r = familynames::shape(&ok_body(r#"{"familynames": []}"#), req.page_limit.unwrap());
    assert_eq!(r.limit, Some(20));
}

#[test]
fn familynames_rejects_year_start_below_range() {
    let a = familynames::Args { year_start: Some(1499), ..Default::default() };
    let err = familynames::request(&ctx(), &a).unwrap_err();
    assert_eq!(err.kind(), ErrorKind::Validation);
    assert!(err.message().contains("--year-start"));
}

#[test]
fn familynames_rejects_year_end_above_range() {
    let a = familynames::Args { year_end: Some(1961), ..Default::default() };
    let err = familynames::request(&ctx(), &a).unwrap_err();
    assert_eq!(err.kind(), ErrorKind::Validation);
    assert!(err.message().contains("--year-end"));
}

#[test]
fn familynames_rejects_unknown_event_type() {
    let a = familynames::Args { event_type: Some(4), ..Default::default() };
    let err = familynames::request(&ctx(), &a).unwrap_err();
    assert_eq!(err.kind(), ErrorKind::Validation);
    assert!(err.message().contains("--event-type"));
}

#[test]
fn familynames_rejects_year_start_after_end() {
    let a = familynames::Args { year_start: Some(1800), year_end: Some(1700), ..Default::default() };
    let err = familynames::request(&ctx(), &a).unwrap_err();
    assert_eq!(err.kind(), ErrorKind::Validation);
    assert!(err.message().contains("--year-start"));
}

#[test]
fn familynames_rejects_limit_over_100() {
    let mut c = ctx();
    c.limit = Some(101);
    let err = familynames::request(&c, &familynames::Args::default()).unwrap_err();
    assert_eq!(err.kind(), ErrorKind::Validation);
    assert!(err.message().contains("--limit"));
}

#[test]
fn familynames_rejects_offset() {
    let mut c = ctx();
    c.offset = Some(5);
    let err = familynames::request(&c, &familynames::Args::default()).unwrap_err();
    assert_eq!(err.kind(), ErrorKind::Validation);
    assert!(err.message().contains("--offset"));
}

#[test]
fn familynames_rejects_unknown_lang() {
    let mut c = ctx();
    c.lang = "es".into();
    let err = familynames::request(&c, &familynames::Args::default()).unwrap_err();
    assert_eq!(err.kind(), ErrorKind::Validation);
    assert!(err.message().contains("--lang"));
}

// ---------------------------------------------------------------- firstnames

fn leiden(year: i32) -> firstnames::Args {
    firstnames::Args { place: "Leiden".into(), year }
}

#[test]
fn firstnames_returns_list_with_required_args() {
    let req = firstnames::request(&ctx(), &leiden(1850)).unwrap();
    assert_eq!(req.path, "/stats/firstnames.json");
    assert_eq!(param(&req, "eventplace"), Some("Leiden"));
    assert_eq!(param(&req, "eventyear"), Some("1850"));
    assert_eq!(param(&req, "number_show"), Some("20"));
    let r = firstnames::shape(&ok_body(r#"{"response": {"firstnames": [{"name": "Jan", "count": 100}]}}"#), req.page_limit.unwrap());
    assert_eq!(r.shape, Shape::List);
    assert_eq!(r.total, Some(1));
    assert_eq!(r.limit, Some(20));
}

#[test]
fn firstnames_rejects_year_below_range() {
    let err = firstnames::request(&ctx(), &leiden(1599)).unwrap_err();
    assert_eq!(err.kind(), ErrorKind::Validation);
    assert!(err.message().contains("--year"));
}

#[test]
fn firstnames_rejects_lang_other_than_nl() {
    let mut c = ctx();
    c.lang = "en".into();
    let err = firstnames::request(&c, &leiden(1850)).unwrap_err();
    assert_eq!(err.kind(), ErrorKind::Validation);
    assert!(err.message().contains("--lang"));
}

#[test]
fn firstnames_rejects_offset() {
    let mut c = ctx();
    c.offset = Some(5);
    let err = firstnames::request(&c, &leiden(1850)).unwrap_err();
    assert_eq!(err.kind(), ErrorKind::Validation);
    assert!(err.message().contains("--offset"));
}

#[test]
fn firstnames_rejects_year_above_range() {
    let err = firstnames::request(&ctx(), &leiden(1961)).unwrap_err();
    assert_eq!(err.kind(), ErrorKind::Validation);
    assert!(err.message().contains("--year"));
}

#[test]
fn firstnames_rejects_zero_limit() {
    let mut c = ctx();
    c.limit = Some(0);
    let err = firstnames::request(&c, &leiden(1850)).unwrap_err();
    assert_eq!(err.kind(), ErrorKind::Validation);
    assert!(err.message().contains("--limit"));
}

#[test]
fn firstnames_rejects_limit_over_100() {
    let mut c = ctx();
    c.limit = Some(101);
    let err = firstnames::request(&c, &leiden(1850)).unwrap_err();
    assert_eq!(err.kind(), ErrorKind::Validation);
    assert!(err.message().contains("--limit"));
}

#[test]
fn firstnames_schema_returns_correct_command_name() {
    let cmd = firstnames::schema();
    assert_eq!(cmd.name, "stats firstnames");
    let place = cmd.args.iter().find(|a| a.name == "--place").unwrap();
    assert!(place.required);
    let year = cmd.args.iter().find(|a| a.name == "--year").unwrap();
    assert_eq!(year.min, Some(1600));
    assert_eq!(year.max, Some(1960));
}

// ---------------------------------------------------------------- professions

#[test]
fn professions_returns_list_with_filters() {
    let a = professions::Args { place: Some("Leiden".into()), year_start: Some(1700), year_end: Some(1800) };
    let req = professions::request(&ctx(), &a).unwrap();
    assert_eq!(req.path, "/stats/professions.json");
    for (k, v) in [
        ("eventplace", "Leiden"),
        ("eventyearstart", "1700"),
        ("eventyearend", "1800"),
        ("number_show", "20"),
        ("lang", "nl"),
    ] {
        assert_eq!(param(&req, k), Some(v), "{k}");
    }
    let r = professions::shape(&ok_body(r#"{"professions": [{"name": "smid", "count": 12}]}"#), req.page_limit.unwrap());
    assert_eq!(r.shape, Shape::List);
    assert_eq!(r.total, Some(1));
}

#[test]
fn professions_rejects_year_out_of_range() {
    let a = professions::Args { year_start: Some(1499), ..Default::default() };
    let err = professions::request(&ctx(), &a).unwrap_err();
    assert_eq!(err.kind(), ErrorKind::Validation);
    assert!(err.message().contains("--year-start"));
}

#[test]
fn professions_rejects_unknown_lang() {
    let mut c = ctx();
    c.lang = "es".into();
    let err = professions::request(&c, &professions::Args::default()).unwrap_err();
    assert_eq!(err.kind(), ErrorKind::Validation);
    assert!(err.message().contains("--lang"));
}

#[test]
fn professions_rejects_limit_over_100() {
    let mut c = ctx();
    c.limit = Some(101);
    let err = professions::request(&c, &professions::Args::default()).unwrap_err();
    assert_eq!(err.kind(), ErrorKind::Validation);
    assert!(err.message().contains("--limit"));
}

#[test]
fn professions_rejects_zero_limit() {
    let mut c = ctx();
    c.limit = Some(0);
    let err = professions::request(&c, &professions::Args::default()).unwrap_err();
    assert_eq!(err.kind(), ErrorKind::Validation);
    assert!(err.message().contains("--limit"), "msg: {}", err.message());
}

#[test]
fn professions_rejects_offset() {
    let mut c = ctx();
    c.offset = Some(10);
    let err = professions::request(&c, &professions::Args::default()).unwrap_err();
    assert_eq!(err.kind(), ErrorKind::Validation);
    assert!(err.message().contains("--offset"), "msg: {}", err.message());
}

#[test]
fn professions_rejects_year_end_out_of_range() {
    let a = professions::Args { year_end: Some(1961), ..Default::default() };
    let err = professions::request(&ctx(), &a).unwrap_err();
    assert_eq!(err.kind(), ErrorKind::Validation);
    assert!(err.message().contains("--year-end"));
}

#[test]
fn professions_rejects_year_start_after_year_end() {
    let a = professions::Args { year_start: Some(1800), year_end: Some(1700), ..Default::default() };
    let err = professions::request(&ctx(), &a).unwrap_err();
    assert_eq!(err.kind(), ErrorKind::Validation);
    assert!(err.message().contains("--year-start"), "msg: {}", err.message());
}

#[test]
fn professions_schema_returns_correct_command_name() {
    let cmd = professions::schema();
    assert_eq!(cmd.name, "stats professions");
    let lang_arg = cmd.args.iter().find(|a| a.name == "--lang").unwrap();
    assert!(lang_arg.enum_values.is_some());
    assert_eq!(lang_arg.enum_values.as_ref().unwrap().len(), 4);
}

#[test]
fn breakdown_group_by_error_quotes_the_value() {
    let err = breakdown::request(&ctx(), &args("bo\"gus")).unwrap_err();
    assert_eq!(
        err.message(),
        r#"group_by must be one of ["archive", "sourcetype", "eventtype", "place", "year"], got "bo\"gus""#
    );
}
