//! Births, deaths and marriages: the request each sends and the list each
//! makes of a response.
use openarchieven::client::{attempt_outcome, CacheMode};
use openarchieven::commands::event_records::{event_shape, CommonFlags};
use openarchieven::commands::{births, deaths, marriages, ApiRequest};
use openarchieven::error::ErrorKind;
use openarchieven::json::{Json, JsonNumber};
use openarchieven::output::{truncation_note, Renderable};
use openarchieven::runtime::ApiContext;
use openarchieven::span::TimeSpan;
use serde_json::Value;

fn lib(v: &Value) -> Json {
    match v {
        Value::Null => Json::Null,
        Value::Bool(b) => Json::Bool(*b),
        Value::Number(n) => Json::Number(JsonNumber { text: n.to_string(), as_i64: n.as_i64(), as_u64: n.as_u64() }),
        Value::String(s) => Json::Str(s.clone()),
        Value::Array(a) => Json::Array(a.iter().map(lib).collect()),
        Value::Object(m) => Json::Object(m.iter().map(|(k, v)| (k.clone(), lib(v))).collect()),
    }
}

fn back(v: &Json) -> Value {
    match v {
        Json::Null => Value::Null,
        Json::Bool(b) => Value::Bool(*b),
        Json::Number(n) => serde_json::from_str(&n.text).unwrap(),
        Json::Str(s) => Value::String(s.clone()),
        Json::Array(a) => Value::Array(a.iter().map(back).collect()),
        Json::Object(m) => Value::Object(m.iter().map(|(k, v)| (k.clone(), back(v))).collect()),
    }
}

/// A 200 response with this JSON body, as the client hands it on.
fn ok_body(text: &str) -> Json {
    let v: Value = serde_json::from_str(text).unwrap();
    attempt_outcome(200, text.as_bytes(), Ok(lib(&v)), None).unwrap()
}

fn ctx() -> ApiContext {
    ApiContext {
        timeout: TimeSpan { secs: 2, nanos: 0 },
        cache_mode: CacheMode::Default,
        cache_ttl_override: None,
        cache_dir: None,
        fields: None,
        limit: Some(5),
        offset: Some(0),
        lang: "nl".into(),
        quiet: false,
    }
}

fn param<'a>(req: &'a ApiRequest, k: &str) -> Option<&'a str> {
    req.params.iter().rev().find(|(name, _)| name == k).map(|(_, v)| v.as_str())
}

fn envelope(r: &Renderable) -> Value {
    back(&r.list_envelope(r.total))
}

fn shaped(req: &ApiRequest, body: &str, year: Option<i32>) -> Renderable {
    event_shape(&ok_body(body), req.page_limit.unwrap(), req.page_offset.unwrap(), year)
}

fn flags(event_year: Option<i32>, event_place: Option<&str>, event_province: Option<&str>) -> CommonFlags {
    CommonFlags {
        event_year,
        event_place: event_place.map(String::from),
        event_province: event_province.map(String::from),
    }
}

#[test]
fn births_paginates_and_filters() {
    let args = births::Args { name: "jansen".into(), flags: flags(Some(1900), None, None) };
    let req = births::request(&ctx(), &args).unwrap();
    assert_eq!(req.path, "/records/getBirths.json");
    assert_eq!(param(&req, "name"), Some("jansen"));
    assert_eq!(param(&req, "eventyear"), Some("1900"));
    assert_eq!(param(&req, "number_show"), Some("5"));
    let r = shaped(&req, r#"{"response": {"numFound": 42, "docs": [{"id": "1"}]}}"#, args.flags.event_year);
    let envelope = envelope(&r);
    assert_eq!(envelope["paginated"], true);
    assert_eq!(envelope["total"], 42);
    assert_eq!(envelope["limit"], 5);
    assert_eq!(envelope["offset"], 0);
    assert_eq!(envelope["items"].as_array().unwrap().len(), 1);
}

#[test]
fn deaths_rejects_event_province() {
    let args = deaths::Args { name: "jansen".into(), flags: flags(None, None, Some("ZH")) };
    let err = deaths::request(&ctx(), &args).unwrap_err();
    assert_eq!(err.kind(), ErrorKind::Validation);
    assert!(err.message().contains("--event-province"), "message: {}", err.message());
}

#[test]
fn marriages_sends_both_names() {
    let args = marriages::Args { name1: "Jan".into(), name2: "Anna".into(), flags: CommonFlags::default() };
    let req = marriages::request(&ctx(), &args).unwrap();
    assert_eq!(req.path, "/records/getMarriages.json");
    assert_eq!(param(&req, "name1"), Some("Jan"));
    assert_eq!(param(&req, "name2"), Some("Anna"));
    let r = shaped(&req, r#"{"response": {"numFound": 1, "docs": [{"id": "m1"}]}}"#, None);
    let envelope = envelope(&r);
    assert_eq!(envelope["total"], 1);
    assert_eq!(envelope["paginated"], true);
}

#[test]
fn births_rejects_limit_over_100() {
    let mut ctx = ctx();
    ctx.limit = Some(101);
    let args = births::Args { name: "jansen".into(), flags: CommonFlags::default() };
    let err = births::request(&ctx, &args).unwrap_err();
    assert_eq!(err.kind(), ErrorKind::Validation);
    assert!(err.message().contains("--limit"), "message: {}", err.message());
}

#[test]
fn marriages_rejects_event_province() {
    let args = marriages::Args { name1: "Jan".into(), name2: "Anna".into(), flags: flags(None, None, Some("ZH")) };
    let err = marriages::request(&ctx(), &args).unwrap_err();
    assert_eq!(err.kind(), ErrorKind::Validation);
    assert!(err.message().contains("--event-province"), "message: {}", err.message());
}

#[test]
fn births_event_place_filter_sent() {
    let args = births::Args { name: "jansen".into(), flags: flags(None, Some("Amsterdam"), None) };
    let req = births::request(&ctx(), &args).unwrap();
    assert_eq!(param(&req, "name"), Some("jansen"));
    assert_eq!(param(&req, "eventplace"), Some("Amsterdam"));
    let r = shaped(&req, r#"{"response": {"numFound": 3, "docs": []}}"#, None);
    assert_eq!(envelope(&r)["total"], 3);
}

#[test]
fn births_with_event_province_sent() {
    let args = births::Args { name: "jansen".into(), flags: flags(None, None, Some("ZH")) };
    let req = births::request(&ctx(), &args).unwrap();
    assert_eq!(param(&req, "name"), Some("jansen"));
    assert_eq!(param(&req, "eventprovince"), Some("ZH"));
    let r = shaped(&req, r#"{"response": {"numFound": 2, "docs": []}}"#, None);
    assert_eq!(envelope(&r)["total"], 2);
}

#[test]
fn births_rejects_zero_limit() {
    let mut ctx = ctx();
    ctx.limit = Some(0);
    let args = births::Args { name: "jansen".into(), flags: CommonFlags::default() };
    let err = births::request(&ctx, &args).unwrap_err();
    assert_eq!(err.kind(), ErrorKind::Validation);
    assert!(err.message().contains("--limit"), "msg: {}", err.message());
}

#[test]
fn deaths_rejects_lang() {
    let mut ctx = ctx();
    ctx.lang = "en".into();
    let args = deaths::Args { name: "jansen".into(), flags: CommonFlags::default() };
    let err = deaths::request(&ctx, &args).unwrap_err();
    assert_eq!(err.kind(), ErrorKind::Validation);
    assert!(err.message().contains("--lang"), "msg: {}", err.message());
}

#[test]
fn marriages_with_event_year_filter() {
    let args = marriages::Args { name1: "Jan".into(), name2: "Anna".into(), flags: flags(Some(1900), None, None) };
    let req = marriages::request(&ctx(), &args).unwrap();
    assert_eq!(param(&req, "name1"), Some("Jan"));
    assert_eq!(param(&req, "name2"), Some("Anna"));
    assert_eq!(param(&req, "eventyear"), Some("1900"));
    let r = shaped(&req, r#"{"response": {"numFound": 1, "docs": [{"id": "m1"}]}}"#, args.flags.event_year);
    assert_eq!(envelope(&r)["total"], 1);
}

#[test]
fn births_filters_year_clientside_when_upstream_returns_mixed() {
    let args = births::Args { name: "jansen".into(), flags: flags(Some(1900), None, None) };
    let req = births::request(&ctx(), &args).unwrap();
    assert_eq!(param(&req, "eventyear"), Some("1900"));
    let r = shaped(
        &req,
        r#"{"response": {"numFound": 3, "docs": [
            {"id": "a", "eventdate": {"year": 1900}},
            {"id": "b", "eventdate": {"year": 1788}},
            {"id": "c", "eventdate": {"year": 1900}}
        ]}}"#,
        args.flags.event_year,
    );
    let envelope = envelope(&r);
    let items = envelope["items"].as_array().unwrap();
    assert_eq!(items.len(), 2, "expected 2 docs after client-side year filter");
    assert!(items.iter().all(|d| d["eventdate"]["year"] == 1900), "all returned docs must have eventdate.year == 1900");
}

#[test]
fn births_keeps_docs_without_eventdate_year_when_event_year_set() {
    let args = births::Args { name: "jansen".into(), flags: flags(Some(1900), None, None) };
    let req = births::request(&ctx(), &args).unwrap();
    let r = shaped(
        &req,
        r#"{"response": {"numFound": 3, "docs": [
            {"id": "a", "eventdate": {"year": 1900}},
            {"id": "b"},
            {"id": "c", "eventdate": {"year": 1850}}
        ]}}"#,
        args.flags.event_year,
    );
    let envelope = envelope(&r);
    let items = envelope["items"].as_array().unwrap();
    assert_eq!(items.len(), 2, "docs missing eventdate.year must be kept");
    let ids: Vec<_> = items.iter().map(|d| d["id"].as_str().unwrap()).collect();
    assert!(ids.contains(&"a"), "doc with matching year must be kept");
    assert!(ids.contains(&"b"), "doc without eventdate.year must be kept");
    assert!(!ids.contains(&"c"), "doc with non-matching year must be dropped");
}

#[test]
fn event_year_filter_is_off_without_a_year() {
    let args = births::Args { name: "jansen".into(), flags: CommonFlags::default() };
    let req = births::request(&ctx(), &args).unwrap();
    assert_eq!(param(&req, "eventyear"), None);
    assert_eq!(param(&req, "start"), Some("0"));
    let r = shaped(
        &req,
        r#"{"response": {"numFound": 2, "docs": [{"id": "a", "eventdate": {"year": 1900}}, {"id": "b", "eventdate": {"year": 1788}}]}}"#,
        None,
    );
    assert_eq!(envelope(&r)["items"].as_array().unwrap().len(), 2);
}

fn births_page(num_found: u64, docs: usize) -> Renderable {
    let mut c = ctx();
    c.limit = None;
    c.offset = None;
    let args = births::Args { name: "jansen".into(), flags: CommonFlags::default() };
    let req = births::request(&c, &args).unwrap();
    assert_eq!(param(&req, "number_show"), Some("10"));
    assert_eq!(param(&req, "start"), Some("0"));
    let items: Vec<String> = (0..docs).map(|i| format!(r#"{{"id": "b-{i}"}}"#)).collect();
    let body = format!(r#"{{"response": {{"numFound": {num_found}, "docs": [{}]}}}}"#, items.join(","));
    shaped(&req, &body, None)
}

#[test]
fn default_limit_truncation_emits_stderr_note() {
    let r = births_page(1234, 10);
    let note = truncation_note(&r, false, false).unwrap();
    assert!(note.contains("note: showing 10 of 1234 records"), "expected truncation note, got: {note:?}");
    assert!(note.contains("--limit"), "note must reference --limit: {note:?}");
}

#[test]
fn explicit_limit_suppresses_truncation_note() {
    let r = births_page(1234, 10);
    assert_eq!(truncation_note(&r, true, false), None);
}

#[test]
fn quiet_suppresses_truncation_note() {
    let r = births_page(1234, 10);
    assert_eq!(truncation_note(&r, false, true), None);
}

#[test]
fn no_truncation_means_no_note() {
    let r = births_page(3, 3);
    assert_eq!(truncation_note(&r, false, false), None);
}

#[test]
fn truncation_note_text_is_exact() {
    let r = births_page(42, 10);
    assert_eq!(truncation_note(&r, false, false).unwrap(), "note: showing 10 of 42 records; pass --limit to see more\n");
}
