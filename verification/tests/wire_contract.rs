//! The exact set of query keys each command sends with every flag set.
#![allow(dead_code, unused_imports)]
use openarchieven::client::{attempt_outcome, CacheMode};
use openarchieven::commands::ApiRequest;
use openarchieven::error::{Error, ErrorKind};
use openarchieven::json::{Json, JsonNumber};
use openarchieven::output::{Renderable, Shape};
use openarchieven::runtime::ApiContext;
use openarchieven::span::TimeSpan;
use serde_json::Value;

fn lib(v: &Value) -> Json {
    match v {
        Value::Null => Json::Null,
        Value::Bool(b) => Json::Bool(*b),
        Value::Number(n) => Json::Number(JsonNumber { text: n.to_string(), as_i64: n.as_i64(), as_u64: n.as_u64() }),
        Value::String(s) => Json::Str(s.clone()),
        Value::Array(a) => Json::Array(a.iter().map(lib).collect()),
        Value::Object(m) => Json::Object(m.iter().map(|(k, v)| (k.clone(), lib(v))).collect()),
    }
}

fn back(v: &Json) -> Value {
    match v {
        Json::Null => Value::Null,
        Json::Bool(b) => Value::Bool(*b),
        Json::Number(n) => serde_json::from_str(&n.text).unwrap(),
        Json::Str(s) => Value::String(s.clone()),
        Json::Array(a) => Value::Array(a.iter().map(back).collect()),
        Json::Object(m) => Value::Object(m.iter().map(|(k, v)| (k.clone(), back(v))).collect()),
    }
}

/// What the client hands on for a response with this status and body.
fn reply(status: u16, text: &str) -> Result<Json, Error> {
    let parsed = serde_json::from_str::<Value>(text).map(|v| lib(&v)).map_err(|e| e.to_string());
    attempt_outcome(status, text.as_bytes(), parsed, None)
}

fn ok_body(text: &str) -> Json {
    reply(200, text).unwrap()
}

fn ctx() -> ApiContext {
    ApiContext {
        timeout: TimeSpan { secs: 2, nanos: 0 },
        cache_mode: CacheMode::Default,
        cache_ttl_override: None,
        cache_dir: None,
        fields: None,
        limit: None,
        offset: None,
        lang: "nl".into(),
        quiet: false,
    }
}

fn param<'a>(req: &'a ApiRequest, k: &str) -> Option<&'a str> {
    req.params.iter().rev().find(|(name, _)| name == k).map(|(_, v)| v.as_str())
}

fn envelope(r: &Renderable) -> Value {
    back(&r.list_envelope(r.total))
}

fn body(r: &Renderable) -> Value {
    back(&r.body)
}
use std::collections::BTreeSet;

use openarchieven::commands;
use openarchieven::commands::event_records::CommonFlags;
use openarchieven::commands::stats::archive_stat::ArchiveStatArgs;

fn quiet_ctx() -> ApiContext {
    let mut c = ctx();
    c.quiet = true;
    c
}

fn assert_keys(req: &ApiRequest, path: &str, expected: &[&str]) {
    assert_eq!(req.path, path);
    let actual: BTreeSet<&str> = req.params.iter().map(|(k, _)| k.as_str()).collect();
    let expected: BTreeSet<&str> = expected.iter().copied().collect();
    assert_eq!(actual, expected, "{path}: outbound keys disagree with expected");
    assert_eq!(actual.len(), req.params.len(), "{path}: a key is sent twice");
}

#[test]
fn search_request_matches_spec() {
    let mut c = quiet_ctx();
    c.limit = Some(5);
    c.offset = Some(0);
    let args = commands::search::Args {
        name: "jansen".into(),
        archive: Some("elo".into()),
        source_type: Some("BS Geboorte".into()),
        event_place: Some("Rotterdam".into()),
        birth_place: Some("Leiden".into()),
        relation_type: Some("vader".into()),
        country: Some("nl".into()),
        sort: Some(1),
    };
    let req = commands::search::request(&c, &args).unwrap();
    assert_keys(
        &req,
        "/records/search.json",
        &["name", "number_show", "start", "lang", "archive_code", "sourcetype", "eventplace", "birthplace", "relationtype", "country_code", "sort"],
    );
}

#[test]
fn show_request_matches_spec() {
    let args = commands::show::Args { archive: "elo".into(), identifier: "abc-123".into() };
    let req = commands::show::request(&quiet_ctx(), &args).unwrap();
    assert_keys(&req, "/records/show.json", &["archive", "identifier", "lang"]);
}

#[test]
fn births_request_matches_spec() {
    let mut c = quiet_ctx();
    c.limit = Some(5);
    c.offset = Some(0);
    let args = commands::births::Args {
        name: "jansen".into(),
        flags: CommonFlags { event_year: Some(1898), event_place: Some("Rotterdam".into()), event_province: Some("ZH".into()) },
    };
    let req = commands::births::request(&c, &args).unwrap();
    assert_keys(&req, "/records/getBirths.json", &["name", "number_show", "start", "eventyear", "eventplace", "eventprovince"]);
}

#[test]
fn deaths_request_matches_spec() {
    let mut c = quiet_ctx();
    c.limit = Some(5);
    c.offset = Some(0);
    let args = commands::deaths::Args {
        name: "jansen".into(),
        flags: CommonFlags { event_year: Some(1918), event_place: Some("Amsterdam".into()), event_province: None },
    };
    let req = commands::deaths::request(&c, &args).unwrap();
    assert_keys(&req, "/records/getDeaths.json", &["name", "number_show", "start", "eventyear", "eventplace"]);
}

#[test]
fn match_request_matches_spec() {
    let args = commands::match_record::Args { name: "jansen".into(), birthyear: 1898 };
    let req = commands::match_record::request(&quiet_ctx(), &args).unwrap();
    assert_keys(&req, "/records/match.json", &["name", "birthyear", "lang"]);
}

#[test]
fn marriages_request_matches_spec() {
    let mut c = quiet_ctx();
    c.limit = Some(5);
    c.offset = Some(0);
    let args = commands::marriages::Args {
        name1: "jansen".into(),
        name2: "de vries".into(),
        flags: CommonFlags { event_year: Some(1925), event_place: Some("Utrecht".into()), event_province: None },
    };
    let req = commands::marriages::request(&c, &args).unwrap();
    assert_keys(&req, "/records/getMarriages.json", &["name1", "name2", "number_show", "start", "eventyear", "eventplace"]);
}

#[test]
fn yearsago_request_matches_spec() {
    let mut c = quiet_ctx();
    c.limit = Some(5);
    let req = commands::yearsago::request(&c, &commands::yearsago::Args { years: 100 }).unwrap();
    assert_keys(&req, "/records/yearsago.json", &["years", "number_show"]);
}

#[test]
fn archives_request_matches_spec() {
    let req = commands::archives::request(&quiet_ctx()).unwrap();
    assert_keys(&req, "/stats/archives.json", &[]);
}

#[test]
fn census_request_matches_spec() {
    let args = commands::census::Args {
        year: 1850,
        place: Some("Amsterdam".into()),
        gg_uri: None,
        province: Some("NH".into()),
        richness: Some(2),
    };
    let req = commands::census::request(&quiet_ctx(), &args).unwrap();
    assert_keys(&req, "/related/census.json", &["year", "place", "province", "richness"]);
}

#[test]
fn weather_request_matches_spec() {
    let args = commands::weather::Args { date: "1898-04-15".into(), longitude: "4.9".into(), latitude: "52.37".into() };
    let req = commands::weather::request(&quiet_ctx(), &args).unwrap();
    assert_keys(&req, "/related/weather.json", &["date", "longitude", "latitude", "lang"]);
}

#[test]
fn stats_records_request_matches_spec() {
    let req = commands::stats::records::request(&quiet_ctx(), &ArchiveStatArgs { archive: Some("elo".into()) }).unwrap();
    assert_keys(&req, "/stats/records.json", &["archive_code"]);
}

#[test]
fn stats_sources_request_matches_spec() {
    let req = commands::stats::sources::request(&quiet_ctx(), &ArchiveStatArgs { archive: Some("elo".into()) }).unwrap();
    assert_keys(&req, "/stats/sources.json", &["archive_code"]);
}

#[test]
fn stats_events_request_matches_spec() {
    let req = commands::stats::events::request(&quiet_ctx(), &ArchiveStatArgs { archive: Some("elo".into()) }).unwrap();
    assert_keys(&req, "/stats/events.json", &["archive_code"]);
}

#[test]
fn stats_comments_request_matches_spec() {
    let req = commands::stats::comments::request(&quiet_ctx(), &ArchiveStatArgs { archive: Some("elo".into()) }).unwrap();
    assert_keys(&req, "/stats/comments.json", &["archive_code"]);
}

#[test]
fn stats_familynames_request_matches_spec() {
    let args = commands::stats::familynames::Args {
        place: Some("Amsterdam".into()),
        year_start: Some(1850),
        year_end: Some(1900),
        event_type: Some(1),
    };
    let req = commands::stats::familynames::request(&quiet_ctx(), &args).unwrap();
    assert_keys(
        &req,
        "/stats/familynames.json",
        &["number_show", "lang", "eventplace", "eventyearstart", "eventyearend", "eventtype"],
    );
}

#[test]
fn stats_firstnames_request_matches_spec() {
    let args = commands::stats::firstnames::Args { place: "Amsterdam".into(), year: 1850 };
    let req = commands::stats::firstnames::request(&quiet_ctx(), &args).unwrap();
    assert_keys(&req, "/stats/firstnames.json", &["eventplace", "eventyear", "number_show"]);
}

#[test]
fn stats_professions_request_matches_spec() {
    let args = commands::stats::professions::Args { place: Some("Amsterdam".into()), year_start: Some(1850), year_end: Some(1900) };
    let req = commands::stats::professions::request(&quiet_ctx(), &args).unwrap();
    assert_keys(&req, "/stats/professions.json", &["number_show", "lang", "eventplace", "eventyearstart", "eventyearend"]);
}

#[test]
fn stats_breakdown_request_matches_spec() {
    let args = commands::stats::breakdown::Args {
        group_by: "archive".into(),
        archive: Some("elo".into()),
        source_type: Some("Bidprentjesverzameling".into()),
        event_type: Some(2),
        place: Some("Amsterdam".into()),
        year_start: Some(1700),
        year_end: Some(1800),
        min_count: Some(10),
        sort: Some("count_desc".into()),
    };
    let req = commands::stats::breakdown::request(&quiet_ctx(), &args).unwrap();
    assert_keys(
        &req,
        "/stats/breakdown.json",
        &["group_by", "number_show", "lang", "archive_code", "sourcetype", "eventtype", "eventplace", "year_start", "year_end", "min_count", "sort"],
    );
}

#[test]
fn transcripts_search_request_matches_spec() {
    let mut c = quiet_ctx();
    c.limit = Some(5);
    c.offset = Some(0);
    let args = commands::transcripts::search::Args {
        q: "coret".into(),
        archive_code: Some("hua".into()),
        archive_number: Some("123".into()),
        inventory_number: Some("99".into()),
        year_start: Some(1700),
        year_end: Some(1800),
    };
    let req = commands::transcripts::search::request(&c, &args).unwrap();
    assert_keys(
        &req,
        "/transcriptions/search.json",
        &["q", "number_show", "start", "lang", "archive_code", "archive_number", "inventory_number", "year_start", "year_end"],
    );
}

#[test]
fn transcripts_browse_request_matches_spec() {
    let args = commands::transcripts::browse::Args { archive_code: Some("hua".into()), archive_number: Some("123".into()) };
    let req = commands::transcripts::browse::request(&quiet_ctx(), &args).unwrap();
    assert_keys(&req, "/transcriptions/browse.json", &["lang", "archive_code", "archive_number"]);
}

#[test]
fn transcripts_show_request_matches_spec() {
    let req = commands::transcripts::show::request(&quiet_ctx(), &commands::transcripts::show::Args { id: "abc".into() }).unwrap();
    assert_keys(&req, "/transcriptions/show.json", &["id", "lang"]);
}
