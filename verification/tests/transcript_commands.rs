//! The transcription commands: the request each sends and what each makes of a response.
#![allow(dead_code, unused_imports)]
use openarchieven::client::{attempt_outcome, CacheMode};
use openarchieven::commands::ApiRequest;
use openarchieven::error::{Error, ErrorKind};
use openarchieven::json::{Json, JsonNumber};
use openarchieven::output::{Renderable, Shape};
use openarchieven::runtime::ApiContext;
use openarchieven::span::TimeSpan;
use serde_json::Value;

fn lib(v: &Value) -> Json {
    match v {
        Value::Null => Json::Null,
        Value::Bool(b) => Json::Bool(*b),
        Value::Number(n) => Json::Number(JsonNumber { text: n.to_string(), as_i64: n.as_i64(), as_u64: n.as_u64() }),
        Value::String(s) => Json::Str(s.clone()),
        Value::Array(a) => Json::Array(a.iter().map(lib).collect()),
        Value::Object(m) => Json::Object(m.iter().map(|(k, v)| (k.clone(), lib(v))).collect()),
    }
}

fn back(v: &Json) -> Value {
    match v {
        Json::Null => Value::Null,
        Json::Bool(b) => Value::Bool(*b),
        Json::Number(n) => serde_json::from_str(&n.text).unwrap(),
        Json::Str(s) => Value::String(s.clone()),
        Json::Array(a) => Value::Array(a.iter().map(back).collect()),
        Json::Object(m) => Value::Object(m.iter().map(|(k, v)| (k.clone(), back(v))).collect()),
    }
}

/// What the client hands on for a response with this status and body.
fn reply(status: u16, text: &str) -> Result<Json, Error> {
    let parsed = serde_json::from_str::<Value>(text).map(|v| lib(&v)).map_err(|e| e.to_string());
    attempt_outcome(status, text.as_bytes(), parsed, None)
}

fn ok_body(text: &str) -> Json {
    reply(200, text).unwrap()
}

fn ctx() -> ApiContext {
    ApiContext {
        timeout: TimeSpan { secs: 2, nanos: 0 },
        cache_mode: CacheMode::Default,
        cache_ttl_override: None,
        cache_dir: None,
        fields: None,
        limit: None,
        offset: None,
        lang: "nl".into(),
        quiet: false,
    }
}

fn param<'a>(req: &'a ApiRequest, k: &str) -> Option<&'a str> {
    req.params.iter().rev().find(|(name, _)| name == k).map(|(_, v)| v.as_str())
}

fn envelope(r: &Renderable) -> Value {
    back(&r.list_envelope(r.total))
}

fn body(r: &Renderable) -> Value {
    back(&r.body)
}
use openarchieven::commands::transcripts::{browse, search, show};

fn q(text: &str) -> search::Args {
    search::Args { q: text.into(), ..Default::default() }
}

// ---------------------------------------------------------------- browse

#[test]
fn browse_level1_no_filters_lists_archives() {
    let req = browse::request(&ctx(), &browse::Args::default()).unwrap();
    assert_eq!(req.path, "/transcriptions/browse.json");
    assert_eq!(param(&req, "lang"), Some("nl"));
    assert_eq!(param(&req, "archive_code"), None);
    assert_eq!(param(&req, "archive_number"), None);
    let b = ok_body(
        r#"{
            "filters": {"archive_code": null, "archive_number": null},
            "response": {
                "level": 1,
                "docs": [
                    {"isil": "NL-HaNA", "archive_code": "rzh", "name": "Nationaal Archief", "count": 15841597},
                    {"isil": "NL-AsdSAA", "archive_code": "saa", "name": "Stadsarchief Amsterdam", "count": 2966344}
                ]
            }
        }"#,
    );
    let r = browse::shape(&b);
    let envelope = envelope(&r);
    assert_eq!(envelope["paginated"], false);
    assert_eq!(envelope["total"], 2);
    assert_eq!(envelope["items"].as_array().unwrap().len(), 2);
    assert_eq!(envelope["items"][0]["archive_code"], "rzh");
}

#[test]
fn browse_level2_with_archive_code_lists_archive_numbers() {
    let args = browse::Args { archive_code: Some("hua".into()), archive_number: None };
    let req = browse::request(&ctx(), &args).unwrap();
    assert_eq!(param(&req, "archive_code"), Some("hua"));
    assert_eq!(param(&req, "archive_number"), None);
    let b = ok_body(
        r#"{
            "filters": {"archive_code": "hua", "archive_number": null},
            "response": {
                "level": 2,
                "docs": [
                    {"nr": "34-4", "title": "Notarissen Utrecht", "count": 91409, "url": "https://example/x"},
                    {"nr": "67", "title": "Familie Huydecoper", "count": 1420, "url": "https://example/y"}
                ]
            }
        }"#,
    );
    let envelope = envelope(&browse::shape(&b));
    assert_eq!(envelope["total"], 2);
    assert_eq!(envelope["items"][0]["nr"], "34-4");
}

#[test]
fn browse_level3_with_archive_code_and_number() {
    let args = browse::Args { archive_code: Some("hua".into()), archive_number: Some("67".into()) };
    let req = browse::request(&ctx(), &args).unwrap();
    assert_eq!(param(&req, "archive_code"), Some("hua"));
    assert_eq!(param(&req, "archive_number"), Some("67"));
    let b = ok_body(
        r#"{
            "filters": {"archive_code": "hua", "archive_number": "67"},
            "response": {"level": 3, "docs": [{"nr": "53", "title": "Brieven 1648", "count": 81, "url": "https://example/53"}]}
        }"#,
    );
    assert_eq!(browse::shape(&b).total, Some(1));
}

#[test]
fn browse_rejects_archive_number_without_archive_code() {
    let args = browse::Args { archive_code: None, archive_number: Some("67".into()) };
    let err = browse::request(&ctx(), &args).unwrap_err();
    assert_eq!(err.kind(), ErrorKind::Validation);
    assert!(err.message().contains("--archive-code"), "msg: {}", err.message());
}

#[test]
fn browse_rejects_pagination_flags() {
    let mut ctx = ctx();
    ctx.limit = Some(5);
    let err = browse::request(&ctx, &browse::Args::default()).unwrap_err();
    assert_eq!(err.kind(), ErrorKind::Validation);
}

#[test]
fn browse_rejects_offset() {
    let mut ctx = ctx();
    ctx.offset = Some(5);
    let err = browse::request(&ctx, &browse::Args::default()).unwrap_err();
    assert_eq!(err.kind(), ErrorKind::Validation);
}

#[test]
fn browse_rejects_unsupported_lang() {
    let mut ctx = ctx();
    ctx.lang = "es".into();
    let err = browse::request(&ctx, &browse::Args::default()).unwrap_err();
    assert_eq!(err.kind(), ErrorKind::Validation);
}

#[test]
fn browse_schema_contract() {
    let s = browse::schema();
    assert_eq!(s.name, "transcripts browse");
    assert!(!s.paginated);
    assert_eq!(s.response_shape, "list");
    assert!(s.args.iter().any(|a| a.name == "--archive-code"));
    assert!(s.args.iter().any(|a| a.name == "--archive-number"));
    assert_eq!(s.cache_ttl_strategy, "fixed");
    let week = 7 * 24 * 3600u64;
    assert_eq!(s.cache_ttl_seconds, Some(week));
}

// ---------------------------------------------------------------- search

#[test]
fn search_passes_required_query_and_pagination() {
    let mut ctx = ctx();
    ctx.limit = Some(5);
    ctx.offset = Some(10);
    ctx.lang = "en".into();
    let req = search::request(&ctx, &q("coret")).unwrap();
    assert_eq!(req.path, "/transcriptions/search.json");
    assert_eq!(param(&req, "q"), Some("coret"));
    assert_eq!(param(&req, "number_show"), Some("5"));
    assert_eq!(param(&req, "start"), Some("10"));
    assert_eq!(param(&req, "lang"), Some("en"));
    let b = ok_body(
        r#"{
            "query": {
                "q": "coret", "archive_code": null, "archive_number": null, "inventory_number": null,
                "year_start": null, "year_end": null, "start": 10, "number_show": 5, "language": "en"
            },
            "response": {
                "number_found": 1128,
                "docs": [
                    {"id": "NL-HaNA_1.04.02_8068_0088", "page": "88"},
                    {"id": "NL-HaNA_1.04.02_8068_0090", "page": "90"}
                ],
                "facets": {
                    "source_archive": [{"isil": "NL-HaNA", "archive_code": "rzh", "name": "Nationaal Archief", "count": 986}]
                }
            }
        }"#,
    );
    let r = search::shape(&b, req.page_limit.unwrap(), req.page_offset.unwrap());
    let envelope = envelope(&r);
    assert_eq!(envelope["paginated"], true);
    assert_eq!(envelope["total"], 1128);
    assert_eq!(envelope["limit"], 5);
    assert_eq!(envelope["offset"], 10);
    assert_eq!(envelope["items"].as_array().unwrap().len(), 2);
    assert_eq!(envelope["items"][0]["id"], "NL-HaNA_1.04.02_8068_0088");
}

#[test]
fn transcripts_search_search_sends_optional_filters() {
    let args = search::Args {
        q: "coret".into(),
        archive_code: Some("hua".into()),
        archive_number: Some("67".into()),
        inventory_number: Some("53".into()),
        year_start: Some(1700),
        year_end: Some(1750),
    };
    let req = search::request(&ctx(), &args).unwrap();
    for (k, v) in [
        ("q", "coret"),
        ("archive_code", "hua"),
        ("archive_number", "67"),
        ("inventory_number", "53"),
        ("year_start", "1700"),
        ("year_end", "1750"),
    ] {
        assert_eq!(param(&req, k), Some(v), "{k}");
    }
    let b = ok_body(r#"{"response": {"number_found": 1, "docs": [{"id": "x"}]}}"#);
    assert_eq!(search::shape(&b, req.page_limit.unwrap(), req.page_offset.unwrap()).total, Some(1));
}

#[test]
fn search_rejects_unsupported_lang() {
    let mut ctx = ctx();
    ctx.lang = "es".into();
    let err = search::request(&ctx, &q("coret")).unwrap_err();
    assert_eq!(err.kind(), ErrorKind::Validation);
    assert!(err.message().contains("--lang"), "message was: {}", err.message());
}

#[test]
fn search_accepts_de_and_fr_lang() {
    let mut ctx = ctx();
    ctx.lang = "de".into();
    let req = search::request(&ctx, &q("x")).unwrap();
    assert_eq!(param(&req, "lang"), Some("de"));
    let b = ok_body(r#"{"response": {"number_found": 0, "docs": []}}"#);
    assert_eq!(search::shape(&b, req.page_limit.unwrap(), req.page_offset.unwrap()).total, Some(0));
    ctx.lang = "fr".into();
    assert!(search::request(&ctx, &q("x")).is_ok());
}

#[test]
fn transcripts_search_search_caps_limit_at_100() {
    let mut ctx = ctx();
    ctx.limit = Some(150);
    let err = search::request(&ctx, &q("coret")).unwrap_err();
    assert_eq!(err.kind(), ErrorKind::Validation);
    assert!(err.message().contains("100"), "msg: {}", err.message());
}

#[test]
fn transcripts_search_search_rejects_zero_limit() {
    let mut ctx = ctx();
    ctx.limit = Some(0);
    let err = search::request(&ctx, &q("coret")).unwrap_err();
    assert_eq!(err.kind(), ErrorKind::Validation);
    assert!(err.message().contains("at least 1"), "msg: {}", err.message());
}

#[test]
fn search_rejects_empty_q() {
    let err = search::request(&ctx(), &q("")).unwrap_err();
    assert_eq!(err.kind(), ErrorKind::Validation);
    assert!(err.message().contains("q"), "msg: {}", err.message());
}

#[test]
fn search_handles_empty_response() {
    let req = search::request(&ctx(), &q("coret")).unwrap();
    let r = search::shape(&ok_body("{}"), req.page_limit.unwrap(), req.page_offset.unwrap());
    assert!(r.total.is_none());
    assert_eq!(envelope(&r)["items"].as_array().unwrap().len(), 0);
}

#[test]
fn search_schema_contract() {
    let s = search::schema();
    assert_eq!(s.name, "transcripts search");
    assert!(s.paginated);
    assert_eq!(s.response_shape, "list");
    let q = s.args.iter().find(|a| a.name == "q").unwrap();
    assert!(q.required);
    assert!(q.positional);
    let lang = s.args.iter().find(|a| a.name == "--lang").unwrap();
    let lang_enum = lang.enum_values.as_ref().unwrap();
    let langs: Vec<Value> = lang_enum.iter().map(back).collect();
    let langs: Vec<&str> = langs.iter().filter_map(|v| v.as_str()).collect();
    assert_eq!(langs, vec!["nl", "en", "de", "fr"]);
    let limit = s.args.iter().find(|a| a.name == "--limit").unwrap();
    assert_eq!(limit.max, Some(100));
}

// ---------------------------------------------------------------- show

fn tid(id: &str) -> show::Args {
    show::Args { id: id.into() }
}

#[test]
fn show_returns_nested_transcription() {
    let args = tid("NL-SdmGA_1504889_11");
    let req = show::request(&ctx(), &args).unwrap();
    assert_eq!(req.path, "/transcriptions/show.json");
    assert_eq!(param(&req, "id"), Some("NL-SdmGA_1504889_11"));
    assert_eq!(param(&req, "lang"), Some("nl"));
    let b = ok_body(
        r#"{
            "id": "NL-SdmGA_1504889_11",
            "uri": "https://www.openarchieven.nl/transcripties/toon/NL-SdmGA_1504889_11",
            "source_archive": {"isil": "NL-SdmGA", "archive_code": "sch", "name": "Gemeentearchief Schiedam"},
            "page": "11",
            "project": "transkribus",
            "transcript": "Bijden Innehoude vanden jegenwoordigen Instrumente..."
        }"#,
    );
    let r = show::shape(&b, &args).unwrap();
    assert_eq!(r.shape, Shape::SingleNested);
    let body = body(&r);
    assert_eq!(body["id"], "NL-SdmGA_1504889_11");
    assert_eq!(body["project"], "transkribus");
    assert_eq!(body["transcript"], "Bijden Innehoude vanden jegenwoordigen Instrumente...");
}

#[test]
fn transcripts_show_show_404_is_not_found() {
    show::request(&ctx(), &tid("missing")).unwrap();
    let err = reply(404, "").unwrap_err();
    assert_eq!(err.kind(), ErrorKind::NotFound);
}

#[test]
fn transcripts_show_show_empty_body_is_not_found() {
    let err = show::shape(&ok_body("{}"), &tid("ghost")).unwrap_err();
    assert_eq!(err.kind(), ErrorKind::NotFound);
    assert!(err.message().contains("ghost"), "message was: {}", err.message());
}

#[test]
fn show_in_body_error_envelope_is_not_found() {
    let args = tid("NL-XX_0_0");
    let req = show::request(&ctx(), &args).unwrap();
    assert_eq!(param(&req, "id"), Some("NL-XX_0_0"));
    let b = ok_body(r#"{"error_code": 2, "error_description": "Transcription not found"}"#);
    let err = show::shape(&b, &args).unwrap_err();
    assert_eq!(err.kind(), ErrorKind::NotFound);
    assert_eq!(err.message(), "no transcription found for NL-XX_0_0 (upstream: Transcription not found)");
}

#[test]
fn show_rejects_empty_id() {
    let err = show::request(&ctx(), &tid("")).unwrap_err();
    assert_eq!(err.kind(), ErrorKind::Validation);
    assert!(err.message().contains("id"), "msg: {}", err.message());
}

#[test]
fn show_rejects_unsupported_lang() {
    let mut ctx = ctx();
    ctx.lang = "es".into();
    let err = show::request(&ctx, &tid("NL-X_1_1")).unwrap_err();
    assert_eq!(err.kind(), ErrorKind::Validation);
    assert!(err.message().contains("--lang"), "msg: {}", err.message());
}

#[test]
fn show_rejects_pagination_flags() {
    let mut ctx = ctx();
    ctx.limit = Some(5);
    let err = show::request(&ctx, &tid("NL-X_1_1")).unwrap_err();
    assert_eq!(err.kind(), ErrorKind::Validation);
}

#[test]
fn show_schema_contract() {
    let s = show::schema();
    assert_eq!(s.name, "transcripts show");
    assert_eq!(s.response_shape, "single-nested");
    assert!(!s.paginated);
    assert_eq!(s.cache_ttl_strategy, "never");
    let id = s.args.iter().find(|a| a.name == "id").unwrap();
    assert!(id.required);
    assert!(id.positional);
}
