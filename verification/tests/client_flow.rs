//! The client: what one attempt makes of a response, the retry decisions, the
//! cache decisions and keys, and the base URL.
#![allow(dead_code, unused_imports)]
use openarchieven::client::{attempt_outcome, CacheMode};
use openarchieven::commands::ApiRequest;
use openarchieven::error::{Error, ErrorKind};
use openarchieven::json::{Json, JsonNumber};
use openarchieven::output::{Renderable, Shape};
use openarchieven::runtime::ApiContext;
use openarchieven::span::TimeSpan;
use serde_json::Value;

fn lib(v: &Value) -> Json {
    match v {
        Value::Null => Json::Null,
        Value::Bool(b) => Json::Bool(*b),
        Value::Number(n) => Json::Number(JsonNumber { text: n.to_string(), as_i64: n.as_i64(), as_u64: n.as_u64() }),
        Value::String(s) => Json::Str(s.clone()),
        Value::Array(a) => Json::Array(a.iter().map(lib).collect()),
        Value::Object(m) => Json::Object(m.iter().map(|(k, v)| (k.clone(), lib(v))).collect()),
    }
}

fn back(v: &Json) -> Value {
    match v {
        Json::Null => Value::Null,
        Json::Bool(b) => Value::Bool(*b),
        Json::Number(n) => serde_json::from_str(&n.text).unwrap(),
        Json::Str(s) => Value::String(s.clone()),
        Json::Array(a) => Value::Array(a.iter().map(back).collect()),
        Json::Object(m) => Value::Object(m.iter().map(|(k, v)| (k.clone(), back(v))).collect()),
    }
}

/// What the client hands on for a response with this status and body.
fn reply(status: u16, text: &str) -> Result<Json, Error> {
    let parsed = serde_json::from_str::<Value>(text).map(|v| lib(&v)).map_err(|e| e.to_string());
    attempt_outcome(status, text.as_bytes(), parsed, None)
}

fn ok_body(text: &str) -> Json {
    reply(200, text).unwrap()
}

fn ctx() -> ApiContext {
    ApiContext {
        timeout: TimeSpan { secs: 2, nanos: 0 },
        cache_mode: CacheMode::Default,
        cache_ttl_override: None,
        cache_dir: None,
        fields: None,
        limit: None,
        offset: None,
        lang: "nl".into(),
        quiet: false,
    }
}

fn param<'a>(req: &'a ApiRequest, k: &str) -> Option<&'a str> {
    req.params.iter().rev().find(|(name, _)| name == k).map(|(_, v)| v.as_str())
}

fn envelope(r: &Renderable) -> Value {
    back(&r.list_envelope(r.total))
}

fn body(r: &Renderable) -> Value {
    back(&r.body)
}
use std::collections::HashMap;

use openarchieven::cache::{is_fresh, key};
use openarchieven::client::{
    build_cache_key, cache_plan, deadline_exceeded, map_error_status, resolve_base_url, retry_after_secs, retry_step,
    sorted_params, transport_error, RetryStep, TtlHint, MAX_ATTEMPTS,
};

/// What one attempt gives for a response with this status, `Retry-After`
/// header and body (the client's `execute_once`).
fn attempt(status: u16, retry_after: Option<&str>, text: &str) -> Result<Json, Error> {
    let parsed = serde_json::from_str::<Value>(text).map(|v| lib(&v)).map_err(|e| e.to_string());
    attempt_outcome(status, text.as_bytes(), parsed, retry_after_secs(retry_after))
}

#[test]
fn execute_once_200_returns_body() {
    let v = back(&attempt(200, None, r#"{"records": []}"#).unwrap());
    assert_eq!(v["records"].as_array().unwrap().len(), 0);
}

#[test]
fn execute_once_400_with_structured_body_is_validation() {
    let err = attempt(400, None, r#"{"error_code": "INVALID_PARAM", "error_description": "name is required"}"#).unwrap_err();
    assert_eq!(err.kind(), ErrorKind::Validation);
    assert_eq!(err.upstream_code(), Some("INVALID_PARAM"));
    assert_eq!(err.upstream_message(), Some("name is required"));
}

#[test]
fn execute_once_404_is_not_found() {
    let err = attempt(404, None, "").unwrap_err();
    assert_eq!(err.kind(), ErrorKind::NotFound);
}

#[test]
fn execute_once_429_is_rate_limit_with_retry_after() {
    let err = attempt(429, Some("30"), "").unwrap_err();
    assert_eq!(err.kind(), ErrorKind::RateLimit);
    assert_eq!(err.retry_after_seconds(), Some(30));
}

#[test]
fn execute_once_500_is_server() {
    let err = attempt(500, None, "").unwrap_err();
    assert_eq!(err.kind(), ErrorKind::Server);
}

#[test]
fn execute_once_2xx_unparseable_is_parse() {
    let err = attempt(200, None, "<html>not json</html>").unwrap_err();
    assert_eq!(err.kind(), ErrorKind::Parse);
}

#[test]
fn execute_once_connection_refused_is_network_error() {
    let err = transport_error(false, "error sending request: connection refused");
    assert_eq!(err.kind(), ErrorKind::Network);
}

#[test]
fn execute_once_400_with_non_json_body_is_validation() {
    let err = attempt(400, None, "plain error text").unwrap_err();
    assert_eq!(err.kind(), ErrorKind::Validation);
    assert!(err.upstream_code().is_none());
}

#[test]
fn execute_once_400_with_json_but_no_error_code_is_validation() {
    let err = attempt(400, None, r#"{"message": "bad input"}"#).unwrap_err();
    assert_eq!(err.kind(), ErrorKind::Validation);
    assert!(err.upstream_code().is_none());
}

#[test]
fn execute_once_unexpected_status_is_server() {
    let err = attempt(418, None, "").unwrap_err();
    assert_eq!(err.kind(), ErrorKind::Server);
}

// ---------------------------------------------------------------- retries

/// Runs the attempts as the client does (without sleeping), with five
/// seconds left throughout; `respond` answers attempt `n`. Returns the
/// result and the number of attempts made.
fn run_attempts(mut respond: impl FnMut(usize) -> Result<Json, Error>) -> (Result<Json, Error>, usize) {
    let mut made = 0usize;
    let mut n: u32 = 0;
    loop {
        if n >= MAX_ATTEMPTS {
            return (Err(deadline_exceeded()), made);
        }
        let outcome = respond(made);
        made += 1;
        match retry_step(n, outcome, TimeSpan { secs: 5, nanos: 0 }) {
            RetryStep::Finish(r) => return (r, made),
            RetryStep::Wait { wait, last } => {
                assert!(wait.secs <= 5);
                if n + 1 >= MAX_ATTEMPTS {
                    return (Err(last), made);
                }
            }
        }
        n += 1;
    }
}

fn then_ok(fails_before_ok: usize) -> impl FnMut(usize) -> Result<Json, Error> {
    move |n| if n < fails_before_ok { attempt(503, None, "") } else { attempt(200, None, r#"{"ok": true}"#) }
}

#[test]
fn retries_on_503_then_succeeds() {
    let (r, made) = run_attempts(then_ok(1));
    assert_eq!(back(&r.unwrap())["ok"], true);
    assert_eq!(made, 2);
}

#[test]
fn gives_up_after_three_attempts_and_returns_server() {
    let (r, made) = run_attempts(then_ok(99));
    assert_eq!(r.unwrap_err().kind(), ErrorKind::Server);
    assert_eq!(made, 3);
}

#[test]
fn retries_on_429_and_surfaces_rate_limit_after_exhaustion() {
    let (r, made) = run_attempts(|_| attempt(429, Some("0"), ""));
    let err = r.unwrap_err();
    assert_eq!(err.kind(), ErrorKind::RateLimit);
    assert_eq!(err.retry_after_seconds(), Some(0));
    assert_eq!(made, 3);
}

#[test]
fn validation_400_does_not_retry() {
    let (r, made) = run_attempts(|_| attempt(400, None, r#"{"error_code": "BAD", "error_description": "no"}"#));
    assert_eq!(r.unwrap_err().kind(), ErrorKind::Validation);
    assert_eq!(made, 1);
}

// ---------------------------------------------------------------- the cache around requests

const NOW_MS: i64 = 1_777_400_000_000;

/// A cache of responses by key, and an upstream that counts its calls: the
/// client's `get_cached`, with the library's decisions.
struct Harness {
    entries: HashMap<String, (Value, Option<i64>)>,
    calls: usize,
}

impl Harness {
    fn new() -> Harness {
        Harness { entries: HashMap::new(), calls: 0 }
    }

    fn get_cached(&mut self, mode: CacheMode, ttl: TtlHint) -> Value {
        let plan = cache_plan(mode, true, ttl);
        let key = build_cache_key("http://127.0.0.1:9", "/x", &[], ttl, "2026-04-29");
        if plan.read {
            if let Some((body, expires)) = self.entries.get(&key) {
                if is_fresh(*expires, NOW_MS) {
                    return body.clone();
                }
            }
        }
        self.calls += 1;
        let body = back(&attempt(200, None, r#"{"ok": true}"#).unwrap());
        if let Some(t) = plan.write {
            self.entries.insert(key, (body.clone(), t.expires_at_ms(NOW_MS)));
        }
        body
    }
}

fn minute() -> TtlHint {
    TtlHint::Fixed(TimeSpan { secs: 60, nanos: 0 })
}

#[test]
fn client_cache_second_call_is_served_from_cache() {
    let mut h = Harness::new();
    h.get_cached(CacheMode::Default, minute());
    h.get_cached(CacheMode::Default, minute());
    assert_eq!(h.calls, 1, "second call should hit cache");
}

#[test]
fn bypass_mode_always_calls_upstream() {
    let mut h = Harness::new();
    h.get_cached(CacheMode::Bypass, minute());
    h.get_cached(CacheMode::Bypass, minute());
    assert_eq!(h.calls, 2);
}

#[test]
fn refresh_mode_skips_read_but_writes() {
    let mut h = Harness::new();
    h.get_cached(CacheMode::Default, minute());
    assert_eq!(h.calls, 1);
    h.get_cached(CacheMode::Refresh, minute());
    assert_eq!(h.calls, 2);
    h.get_cached(CacheMode::Default, minute());
    assert_eq!(h.calls, 2, "refresh should have written a fresh entry");
}

#[test]
fn ttl_hint_none_does_not_write() {
    let mut h = Harness::new();
    h.get_cached(CacheMode::Default, TtlHint::Uncached);
    h.get_cached(CacheMode::Default, TtlHint::Uncached);
    assert_eq!(h.calls, 2);
}

#[test]
fn expired_entry_is_fetched_again() {
    let mut h = Harness::new();
    let key = build_cache_key("http://127.0.0.1:9", "/x", &[], minute(), "2026-04-29");
    h.entries.insert(key, (Value::Null, Some(NOW_MS)));
    h.get_cached(CacheMode::Default, minute());
    assert_eq!(h.calls, 1);
}

// ---------------------------------------------------------------- status mapping

#[test]
fn map_error_status_404_is_not_found() {
    let err = map_error_status(404, b"", &None, None);
    assert_eq!(err.kind(), ErrorKind::NotFound);
}

#[test]
fn map_error_status_429_without_retry_after() {
    let err = map_error_status(429, b"", &None, None);
    assert_eq!(err.kind(), ErrorKind::RateLimit);
    assert!(err.retry_after_seconds().is_none());
}

#[test]
fn map_error_status_429_with_retry_after() {
    let err = map_error_status(429, b"", &None, Some(15));
    assert_eq!(err.kind(), ErrorKind::RateLimit);
    assert_eq!(err.retry_after_seconds(), Some(15));
}

#[test]
fn map_error_status_500_is_server() {
    let err = map_error_status(500, b"", &None, None);
    assert_eq!(err.kind(), ErrorKind::Server);
}

#[test]
fn map_error_status_unexpected_code_is_server() {
    let err = map_error_status(418, b"", &None, None);
    assert_eq!(err.kind(), ErrorKind::Server);
}

#[test]
fn resolve_base_url_strips_trailing_slash() {
    assert_eq!(resolve_base_url(Some("https://api.example.com/v1/"), None), "https://api.example.com/v1");
}

// ---------------------------------------------------------------- cache keys

fn p(items: &[(&str, &str)]) -> Vec<(String, String)> {
    let pairs: Vec<(String, String)> = items.iter().map(|(k, v)| (k.to_string(), v.to_string())).collect();
    sorted_params(&pairs)
}

#[test]
fn key_changes_with_base_url() {
    let a = key("https://api.openarchieven.nl/1.1", "GET", "/x", &p(&[]), "");
    let b = key("https://example.test/1.1", "GET", "/x", &p(&[]), "");
    assert_ne!(a, b);
}

#[test]
fn key_changes_with_query() {
    let a = key("https://example.com", "GET", "/x", &p(&[("a", "1")]), "");
    let b = key("https://example.com", "GET", "/x", &p(&[("a", "2")]), "");
    assert_ne!(a, b);
}

#[test]
fn key_changes_with_ttl_class() {
    let a = key("https://example.com", "GET", "/x", &p(&[]), "2026-04-29");
    let b = key("https://example.com", "GET", "/x", &p(&[]), "2026-04-30");
    assert_ne!(a, b);
}

#[test]
fn key_stable_across_param_insertion_order() {
    let a = key("https://e.com", "GET", "/x", &p(&[("a", "1"), ("b", "2")]), "");
    let b = key("https://e.com", "GET", "/x", &p(&[("b", "2"), ("a", "1")]), "");
    assert_eq!(a, b);
}

#[test]
fn key_normalizes_host_case() {
    let a = key("https://API.openarchieven.NL/1.1", "GET", "/x", &p(&[]), "");
    let b = key("https://api.openarchieven.nl/1.1", "GET", "/x", &p(&[]), "");
    assert_eq!(a, b);
}

#[test]
fn key_normalizes_trailing_slash() {
    let a = key("https://api.openarchieven.nl/1.1/", "GET", "/x", &p(&[]), "");
    let b = key("https://api.openarchieven.nl/1.1", "GET", "/x", &p(&[]), "");
    assert_eq!(a, b);
}

#[test]
fn key_is_64_hex_chars() {
    let k = key("https://e.com", "GET", "/x", &p(&[]), "");
    assert_eq!(k.len(), 64);
    assert!(k.chars().all(|c| c.is_ascii_hexdigit()));
}

#[test]
fn key_hashes_the_percent_encoded_query() {
    let k = key("https://e.com", "GET", "/x", &p(&[("a b", "é/1")]), "");
    let material = b"https://e.com\0GET\0/x\0a%20b=%C3%A9%2F1\0";
    let expected: String = <sha2::Sha256 as sha2::Digest>::digest(material).iter().map(|b| format!("{b:02x}")).collect();
    assert_eq!(k, expected);
}
