//! The record commands: the request each sends and what each makes of a response.
#![allow(dead_code, unused_imports)]
use openarchieven::client::{attempt_outcome, CacheMode};
use openarchieven::commands::ApiRequest;
use openarchieven::error::{Error, ErrorKind};
use openarchieven::json::{Json, JsonNumber};
use openarchieven::output::{Renderable, Shape};
use openarchieven::runtime::ApiContext;
use openarchieven::span::TimeSpan;
use serde_json::Value;

fn lib(v: &Value) -> Json {
    match v {
        Value::Null => Json::Null,
        Value::Bool(b) => Json::Bool(*b),
        Value::Number(n) => Json::Number(JsonNumber { text: n.to_string(), as_i64: n.as_i64(), as_u64: n.as_u64() }),
        Value::String(s) => Json::Str(s.clone()),
        Value::Array(a) => Json::Array(a.iter().map(lib).collect()),
        Value::Object(m) => Json::Object(m.iter().map(|(k, v)| (k.clone(), lib(v))).collect()),
    }
}

fn back(v: &Json) -> Value {
    match v {
        Json::Null => Value::Null,
        Json::Bool(b) => Value::Bool(*b),
        Json::Number(n) => serde_json::from_str(&n.text).unwrap(),
        Json::Str(s) => Value::String(s.clone()),
        Json::Array(a) => Value::Array(a.iter().map(back).collect()),
        Json::Object(m) => Value::Object(m.iter().map(|(k, v)| (k.clone(), back(v))).collect()),
    }
}

/// What the client hands on for a response with this status and body.
fn reply(status: u16, text: &str) -> Result<Json, Error> {
    let parsed = serde_json::from_str::<Value>(text).map(|v| lib(&v)).map_err(|e| e.to_string());
    attempt_outcome(status, text.as_bytes(), parsed, None)
}

fn ok_body(text: &str) -> Json {
    reply(200, text).unwrap()
}

fn ctx() -> ApiContext {
    ApiContext {
        timeout: TimeSpan { secs: 2, nanos: 0 },
        cache_mode: CacheMode::Default,
        cache_ttl_override: None,
        cache_dir: None,
        fields: None,
        limit: None,
        offset: None,
        lang: "nl".into(),
        quiet: false,
    }
}

fn param<'a>(req: &'a ApiRequest, k: &str) -> Option<&'a str> {
    req.params.iter().rev().find(|(name, _)| name == k).map(|(_, v)| v.as_str())
}

fn envelope(r: &Renderable) -> Value {
    back(&r.list_envelope(r.total))
}

fn body(r: &Renderable) -> Value {
    back(&r.body)
}
use openarchieven::commands::{archives, census, match_record, search, show, weather, yearsago};

fn search_args(name: &str) -> search::Args {
    search::Args { name: name.into(), ..Default::default() }
}

// ---------------------------------------------------------------- search

#[test]
fn search_passes_pagination_and_lang() {
    let mut ctx = ctx();
    ctx.limit = Some(5);
    ctx.offset = Some(10);
    ctx.lang = "en".into();
    let req = search::request(&ctx, &search_args("jansen")).unwrap();
    assert_eq!(req.path, "/records/search.json");
    assert_eq!(param(&req, "name"), Some("jansen"));
    assert_eq!(param(&req, "number_show"), Some("5"));
    assert_eq!(param(&req, "start"), Some("10"));
    assert_eq!(param(&req, "lang"), Some("en"));
    let b = ok_body(r#"{"response": {"numFound": 100, "docs": [{"id": "rec-1"}, {"id": "rec-2"}]}}"#);
    let r = search::shape(&b, req.page_limit.unwrap(), req.page_offset.unwrap());
    let envelope = envelope(&r);
    assert_eq!(envelope["paginated"], true);
    assert_eq!(envelope["total"], 100);
    assert_eq!(envelope["limit"], 5);
    assert_eq!(envelope["offset"], 10);
    assert_eq!(envelope["items"].as_array().unwrap().len(), 2);
}

#[test]
fn search_rejects_unknown_lang() {
    let mut ctx = ctx();
    ctx.lang = "de".into();
    let err = search::request(&ctx, &search_args("jansen")).unwrap_err();
    assert_eq!(err.kind(), ErrorKind::Validation);
    assert!(err.message().contains("--lang"), "message was: {}", err.message());
}

#[test]
fn search_search_caps_limit_at_100() {
    let mut ctx = ctx();
    ctx.limit = Some(200);
    let err = search::request(&ctx, &search_args("jansen")).unwrap_err();
    assert_eq!(err.kind(), ErrorKind::Validation);
    assert!(err.message().contains("100"), "message was: {}", err.message());
}

#[test]
fn search_search_rejects_zero_limit() {
    let mut ctx = ctx();
    ctx.limit = Some(0);
    let err = search::request(&ctx, &search_args("jansen")).unwrap_err();
    assert_eq!(err.kind(), ErrorKind::Validation);
    assert!(err.message().contains("at least 1"), "msg: {}", err.message());
}

#[test]
fn search_search_sends_optional_filters() {
    let args = search::Args {
        name: "jansen".into(),
        archive: Some("elo".into()),
        source_type: Some("BS".into()),
        event_place: Some("Amsterdam".into()),
        birth_place: Some("Leiden".into()),
        relation_type: Some("vader".into()),
        country: Some("NL".into()),
        sort: Some(2),
    };
    let req = search::request(&ctx(), &args).unwrap();
    assert_eq!(param(&req, "name"), Some("jansen"));
    assert_eq!(param(&req, "archive_code"), Some("elo"));
    assert_eq!(param(&req, "sourcetype"), Some("BS"));
    assert_eq!(param(&req, "eventplace"), Some("Amsterdam"));
    assert_eq!(param(&req, "birthplace"), Some("Leiden"));
    assert_eq!(param(&req, "relationtype"), Some("vader"));
    assert_eq!(param(&req, "country_code"), Some("NL"));
    assert_eq!(param(&req, "sort"), Some("2"));
    let b = ok_body(r#"{"response": {"numFound": 1, "docs": [{"id": "x"}]}}"#);
    let r = search::shape(&b, req.page_limit.unwrap(), req.page_offset.unwrap());
    assert_eq!(envelope(&r)["total"], 1);
}

#[test]
fn search_handles_missing_response_docs() {
    let req = search::request(&ctx(), &search_args("jansen")).unwrap();
    let r = search::shape(&ok_body("{}"), req.page_limit.unwrap(), req.page_offset.unwrap());
    assert!(r.total.is_none());
    assert_eq!(envelope(&r)["items"].as_array().unwrap().len(), 0);
}

#[test]
fn search_schema_returns_correct_command_name() {
    let cmd = search::schema();
    assert_eq!(cmd.name, "search");
    assert!(cmd.paginated);
    assert_eq!(cmd.response_shape, "list");
    let sort_arg = cmd.args.iter().find(|a| a.name == "--sort").unwrap();
    assert!(sort_arg.enum_values.is_some());
    assert_eq!(sort_arg.enum_values.as_ref().unwrap().len(), 12);
    let name_arg = cmd.args.iter().find(|a| a.name == "name").unwrap();
    assert!(name_arg.required);
    assert!(name_arg.positional);
    let limit_arg = cmd.args.iter().find(|a| a.name == "--limit").unwrap();
    assert_eq!(limit_arg.max, Some(100));
    let lang_arg = cmd.args.iter().find(|a| a.name == "--lang").unwrap();
    assert!(lang_arg.enum_values.is_some());
    for flag in ["--archive", "--source-type", "--event-place", "--birth-place", "--relation-type", "--country"] {
        let arg = cmd.args.iter().find(|a| a.name == flag).unwrap();
        assert!(!arg.required, "{flag}");
    }
    assert_eq!(cmd.output_fields.len(), 5);
    assert!(cmd.output_fields.iter().any(|f| f.name == "items"));
    assert!(cmd.output_fields.iter().any(|f| f.name == "total"));
}

// ---------------------------------------------------------------- show

fn show_args(archive: &str, identifier: &str) -> show::Args {
    show::Args { archive: archive.into(), identifier: identifier.into() }
}

#[test]
fn show_returns_nested_object() {
    let args = show_args("elo", "abc");
    let req = show::request(&ctx(), &args).unwrap();
    assert_eq!(req.path, "/records/show.json");
    assert_eq!(param(&req, "archive"), Some("elo"));
    assert_eq!(param(&req, "identifier"), Some("abc"));
    let b = ok_body(r#"{"record": {"id": "abc", "person": {"name": "Jan Jansen"}}}"#);
    let r = show::shape(&b, &args).unwrap();
    assert_eq!(r.shape, Shape::SingleNested);
    let body = body(&r);
    assert_eq!(body["record"]["id"], "abc");
    assert_eq!(body["record"]["person"]["name"], "Jan Jansen");
}

#[test]
fn show_show_404_is_not_found() {
    let args = show_args("elo", "missing");
    let req = show::request(&ctx(), &args).unwrap();
    assert_eq!(param(&req, "identifier"), Some("missing"));
    let err = reply(404, "").unwrap_err();
    assert_eq!(err.kind(), ErrorKind::NotFound);
}

#[test]
fn show_show_empty_body_is_not_found() {
    let args = show_args("elo", "ghost");
    show::request(&ctx(), &args).unwrap();
    let err = show::shape(&ok_body("{}"), &args).unwrap_err();
    assert_eq!(err.kind(), ErrorKind::NotFound);
    assert!(err.message().contains("elo"), "message was: {}", err.message());
    assert!(err.message().contains("ghost"), "message was: {}", err.message());
}

#[test]
fn show_rejects_unknown_lang() {
    let mut ctx = ctx();
    ctx.lang = "de".into();
    let err = show::request(&ctx, &show_args("elo", "abc")).unwrap_err();
    assert_eq!(err.kind(), ErrorKind::Validation);
    assert!(err.message().contains("--lang"), "msg: {}", err.message());
}

#[test]
fn show_rejects_limit_or_offset() {
    let mut ctx = ctx();
    ctx.offset = Some(5);
    let err = show::request(&ctx, &show_args("elo", "abc")).unwrap_err();
    assert_eq!(err.kind(), ErrorKind::Validation);
    assert!(err.message().contains("--limit"), "msg: {}", err.message());
}

#[test]
fn show_null_body_is_not_found() {
    let args = show_args("elo", "ghost");
    let err = show::shape(&ok_body("null"), &args).unwrap_err();
    assert_eq!(err.kind(), ErrorKind::NotFound);
}

#[test]
fn show_upstream_invalid_archive_is_not_found() {
    let args = show_args("ZZZ", "12345");
    let req = show::request(&ctx(), &args).unwrap();
    assert_eq!(param(&req, "archive"), Some("ZZZ"));
    assert_eq!(param(&req, "identifier"), Some("12345"));
    let b = ok_body(r#"{"error_code": 1, "error_description": "Invalid archive", "request": "show"}"#);
    let err = show::shape(&b, &args).unwrap_err();
    assert_eq!(err.kind(), ErrorKind::NotFound);
    assert_eq!(err.message(), "no record found for ZZZ/12345 (upstream: Invalid archive)");
}

// ---------------------------------------------------------------- match

#[test]
fn match_returns_list_non_paginated() {
    let args = match_record::Args { name: "Jan Jansen".into(), birthyear: 1850 };
    let req = match_record::request(&ctx(), &args).unwrap();
    assert_eq!(req.path, "/records/match.json");
    assert_eq!(param(&req, "name"), Some("Jan Jansen"));
    assert_eq!(param(&req, "birthyear"), Some("1850"));
    let r = match_record::shape(&ok_body(r#"{"response": {"docs": [{"id": "x"}, {"id": "y"}]}}"#));
    let envelope = envelope(&r);
    assert_eq!(envelope["paginated"], false);
    assert_eq!(envelope["total"], 2);
    assert_eq!(envelope["items"].as_array().unwrap().len(), 2);
}

#[test]
fn match_rejects_limit() {
    let mut ctx = ctx();
    ctx.limit = Some(10);
    let args = match_record::Args { name: "Jan Jansen".into(), birthyear: 1850 };
    let err = match_record::request(&ctx, &args).unwrap_err();
    assert_eq!(err.kind(), ErrorKind::Validation);
}

#[test]
fn match_record_schema_returns_correct_shape() {
    let cmd = match_record::schema();
    assert_eq!(cmd.name, "match");
    assert!(!cmd.paginated);
    assert_eq!(cmd.response_shape, "list");
    let name_arg = cmd.args.iter().find(|a| a.name == "name").unwrap();
    assert!(name_arg.required);
    assert!(name_arg.positional);
    let birthyear = cmd.args.iter().find(|a| a.name == "birthyear").unwrap();
    assert!(birthyear.required);
    assert!(birthyear.positional);
    let lang = cmd.args.iter().find(|a| a.name == "--lang").unwrap();
    assert!(!lang.required);
    assert!(lang.enum_values.is_some());
    assert_eq!(lang.enum_values.as_ref().unwrap().len(), 2);
    assert_eq!(cmd.output_fields.len(), 3);
    assert!(cmd.output_fields.iter().any(|f| f.name == "items"));
    assert!(cmd.output_fields.iter().any(|f| f.name == "total"));
    assert!(cmd.output_fields.iter().any(|f| f.name == "paginated"));
}

// ---------------------------------------------------------------- archives

#[test]
fn archives_returns_list_with_total_and_paginated_false() {
    let req = archives::request(&ctx()).unwrap();
    assert_eq!(req.path, "/stats/archives.json");
    let b = ok_body(
        r#"{"archives": [
            {"archive_code": "elo", "archive_name": "Erfgoed Leiden"},
            {"archive_code": "saa", "archive_name": "Stadsarchief Amsterdam"}
        ]}"#,
    );
    let r = archives::shape(&b);
    let envelope = back(&r.list_envelope(None));
    assert_eq!(envelope["paginated"], false);
    assert_eq!(envelope["total"], 2);
    assert_eq!(envelope["items"].as_array().unwrap().len(), 2);
    assert_eq!(envelope["items"][0]["archive_code"], "elo");
}

#[test]
fn archives_rejects_limit_with_validation() {
    let mut ctx = ctx();
    ctx.limit = Some(10);
    let err = archives::request(&ctx).unwrap_err();
    assert_eq!(err.kind(), ErrorKind::Validation);
    assert!(err.message().contains("--limit"));
    ctx.limit = None;
    ctx.offset = Some(0);
    let err = archives::request(&ctx).unwrap_err();
    assert_eq!(err.kind(), ErrorKind::Validation);
}

// ---------------------------------------------------------------- yearsago

#[test]
fn yearsago_sends_years_and_limit() {
    let mut c = ctx();
    c.limit = Some(5);
    let req = yearsago::request(&c, &yearsago::Args { years: 100 }).unwrap();
    assert_eq!(req.path, "/records/yearsago.json");
    assert_eq!(param(&req, "years"), Some("100"));
    assert_eq!(param(&req, "number_show"), Some("5"));
    let r = yearsago::shape(&ok_body(r#"{"response": {"docs": [{"id": "y1"}]}}"#));
    let envelope = envelope(&r);
    assert_eq!(envelope["paginated"], false);
    assert_eq!(envelope["total"], 1);
    assert_eq!(envelope["items"].as_array().unwrap().len(), 1);
}

#[test]
fn yearsago_rejects_offset() {
    let mut c = ctx();
    c.offset = Some(10);
    let err = yearsago::request(&c, &yearsago::Args { years: 100 }).unwrap_err();
    assert_eq!(err.kind(), ErrorKind::Validation);
    assert!(err.message().contains("--offset"), "message: {}", err.message());
}

#[test]
fn yearsago_rejects_lang_other_than_nl() {
    let mut c = ctx();
    c.lang = "en".into();
    let err = yearsago::request(&c, &yearsago::Args { years: 100 }).unwrap_err();
    assert_eq!(err.kind(), ErrorKind::Validation);
    assert!(err.message().contains("--lang"), "message: {}", err.message());
}

#[test]
fn yearsago_rejects_limit_over_100() {
    let mut c = ctx();
    c.limit = Some(200);
    let err = yearsago::request(&c, &yearsago::Args { years: 100 }).unwrap_err();
    assert_eq!(err.kind(), ErrorKind::Validation);
    assert!(err.message().contains("--limit"));
}

#[test]
fn yearsago_default_limit_is_10() {
    let req = yearsago::request(&ctx(), &yearsago::Args { years: 50 }).unwrap();
    assert_eq!(param(&req, "years"), Some("50"));
    assert_eq!(param(&req, "number_show"), Some("10"));
    let r = yearsago::shape(&ok_body(r#"{"response": {"docs": []}}"#));
    assert_eq!(envelope(&r)["total"], 0);
}

// ---------------------------------------------------------------- census

fn census_args(place: Option<&str>, gg_uri: Option<&str>, richness: Option<i32>) -> census::Args {
    census::Args { year: 1850, place: place.map(String::from), gg_uri: gg_uri.map(String::from), province: None, richness }
}

#[test]
fn census_returns_nested() {
    let args = census_args(Some("Leiden"), None, None);
    let req = census::request(&ctx(), &args).unwrap();
    assert_eq!(req.path, "/related/census.json");
    assert_eq!(param(&req, "year"), Some("1850"));
    assert_eq!(param(&req, "place"), Some("Leiden"));
    let r = census::shape(&ok_body(r#"{"census": {"year": 1850, "tables": []}}"#));
    assert_eq!(r.shape, Shape::SingleNested);
    assert_eq!(body(&r)["census"]["year"], 1850);
}

#[test]
fn census_requires_place_or_gg_uri() {
    let err = census::request(&ctx(), &census_args(None, None, None)).unwrap_err();
    assert_eq!(err.kind(), ErrorKind::Validation);
    assert!(err.message().contains("--place") && err.message().contains("--gg-uri"), "message: {}", err.message());
}

#[test]
fn census_rejects_both_place_and_gg_uri() {
    let err = census::request(&ctx(), &census_args(Some("Leiden"), Some("gg:1"), None)).unwrap_err();
    assert_eq!(err.kind(), ErrorKind::Validation);
}

#[test]
fn census_rejects_richness_outside_1_to_3() {
    let err = census::request(&ctx(), &census_args(Some("Leiden"), None, Some(4))).unwrap_err();
    assert_eq!(err.kind(), ErrorKind::Validation);
    assert!(err.message().contains("--richness"));
}

#[test]
fn census_rejects_fields() {
    let mut c = ctx();
    c.fields = Some(vec!["census".into()]);
    let err = census::request(&c, &census_args(Some("Leiden"), None, None)).unwrap_err();
    assert_eq!(err.kind(), ErrorKind::Validation);
    assert!(err.message().contains("--fields"));
}

#[test]
fn census_schema_returns_correct_command_name() {
    let cmd = census::schema();
    assert_eq!(cmd.name, "census");
    assert_eq!(cmd.response_shape, "single-nested");
    let richness = cmd.args.iter().find(|a| a.name == "--richness").unwrap();
    assert_eq!(richness.min, Some(1));
    assert_eq!(richness.max, Some(3));
}

// ---------------------------------------------------------------- weather

fn weather_args(date: &str, longitude: &str, latitude: &str) -> weather::Args {
    weather::Args { date: date.into(), longitude: longitude.into(), latitude: latitude.into() }
}

#[test]
fn weather_returns_list() {
    let req = weather::request(&ctx(), &weather_args("1850-06-15", "4.49", "52.16")).unwrap();
    assert_eq!(req.path, "/related/weather.json");
    assert_eq!(param(&req, "date"), Some("1850-06-15"));
    assert_eq!(param(&req, "longitude"), Some("4.49"));
    assert_eq!(param(&req, "latitude"), Some("52.16"));
    let b = ok_body(
        r#"[{
            "STN": {"label": "stationnummer", "value": "344"},
            "YYYYMMDD": {"label": "datum", "value": "18500615"},
            "TG": {"label": "etmaalgemiddelde temperatuur (in 0.1 graden Celsius)", "value": "180"},
            "FHX": {"label": "hoogste uurgemiddelde windsnelheid (in 0.1 m/s)", "value": "45"}
        }]"#,
    );
    let r = weather::shape(&b);
    assert_eq!(r.shape, Shape::List);
    let env = back(&r.list_envelope(Some(1)));
    assert_eq!(env["total"], 1);
    assert_eq!(env["items"][0]["STN"]["value"], "344");
}

#[test]
fn weather_tolerates_single_object_response() {
    weather::request(&ctx(), &weather_args("1850-06-15", "4.49", "52.16")).unwrap();
    let b = ok_body(r#"{"STN": {"label": "stationnummer", "value": "344"}, "TG": {"label": "temp", "value": "180"}}"#);
    let r = weather::shape(&b);
    assert_eq!(r.shape, Shape::List);
    let env = back(&r.list_envelope(Some(1)));
    assert_eq!(env["total"], 1);
    assert_eq!(env["items"][0]["STN"]["value"], "344");
}

#[test]
fn weather_validates_date_format() {
    let err = weather::request(&ctx(), &weather_args("not-a-date", "4.49", "52.16")).unwrap_err();
    assert_eq!(err.kind(), ErrorKind::Validation);
    assert!(err.message().contains("--date"));
}

#[test]
fn weather_validates_longitude_decimal() {
    let err = weather::request(&ctx(), &weather_args("1850-06-15", "not-a-number", "52.16")).unwrap_err();
    assert_eq!(err.kind(), ErrorKind::Validation);
    assert!(err.message().contains("--longitude"));
}

#[test]
fn weather_rejects_unknown_lang() {
    let mut c = ctx();
    c.lang = "de".into();
    let err = weather::request(&c, &weather_args("1850-06-15", "4.49", "52.16")).unwrap_err();
    assert_eq!(err.kind(), ErrorKind::Validation);
    assert!(err.message().contains("--lang"));
}

#[test]
fn weather_rejects_offset() {
    let mut c = ctx();
    c.offset = Some(5);
    let err = weather::request(&c, &weather_args("1850-06-15", "4.49", "52.16")).unwrap_err();
    assert_eq!(err.kind(), ErrorKind::Validation);
    assert!(err.message().contains("--limit"), "msg: {}", err.message());
}

#[test]
fn weather_validates_latitude_decimal() {
    let err = weather::request(&ctx(), &weather_args("1850-06-15", "4.49", "not-a-number")).unwrap_err();
    assert_eq!(err.kind(), ErrorKind::Validation);
    assert!(err.message().contains("--latitude"), "msg: {}", err.message());
}
