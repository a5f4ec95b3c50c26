//! API commands. Each one checks its flags and plans one GET request
//! ([`ApiRequest`]); the response body is then shaped into a `Renderable`.
//! Sending the request (through the cache and the client) is the caller's part.
use vstd::prelude::*;
use crate::cache::pair_views;
use crate::client::TtlHint;
use crate::error::{Error, ErrorKind, ErrorV, Result};
use crate::json::{Json, JsonV, deep_clone};
use crate::runtime::verr;
use crate::text::{cat4, debug_str, debug_text, dec, dec_int, i64_text, u64_text, views};

pub mod archives;
pub mod births;
pub mod cache_cmd;
pub mod census;
pub mod deaths;
pub mod event_records;
pub mod marriages;
pub mod match_record;
pub mod search;
pub mod show;
pub mod stats;
pub mod transcripts;
pub mod weather;
pub mod yearsago;

verus! {

/// One GET request to the API: path, query pairs in order, and cache lifetime.
#[derive(Debug)]
pub struct ApiRequest {
    pub path: String,
    pub params: Vec<(String, String)>,
    pub ttl: TtlHint,
    /// The page size that the response envelope reports.
    pub page_limit: Option<u32>,
    /// The offset that the response envelope reports.
    pub page_offset: Option<u32>,
}

/// A request as plain values.
pub struct RequestV {
    pub path: Seq<char>,
    pub pairs: Seq<(Seq<char>, Seq<char>)>,
    pub ttl: TtlHint,
    pub page_limit: Option<u32>,
    pub page_offset: Option<u32>,
}

impl View for ApiRequest {
    type V = RequestV;

    open spec fn view(&self) -> RequestV {
        RequestV {
            path: self.path@,
            pairs: pair_views(self.params@),
            ttl: self.ttl,
            page_limit: self.page_limit,
            page_offset: self.page_offset,
        }
    }
}

/// `r` is the planned request, or the validation error with the planned message.
pub open spec fn planned(r: Result<ApiRequest>, plan: core::result::Result<RequestV, Seq<char>>) -> bool {
    match plan {
        Ok(v) => r is Ok && r->Ok_0@ == v,
        Err(m) => r is Err && r->Err_0@ == verr(m),
    }
}

/// A one-pair sequence.
pub open spec fn pair(k: Seq<char>, v: Seq<char>) -> Seq<(Seq<char>, Seq<char>)> {
    seq![(k, v)]
}

/// The pair `(k, v)` when the value is given, nothing otherwise.
pub open spec fn opt_pair(k: Seq<char>, v: Option<String>) -> Seq<(Seq<char>, Seq<char>)> {
    match v {
        Some(s) => seq![(k, s@)],
        None => Seq::empty(),
    }
}

/// The pair `(k, decimal text of v)` when the value is given.
pub open spec fn opt_int_pair(k: Seq<char>, v: Option<i32>) -> Seq<(Seq<char>, Seq<char>)> {
    match v {
        Some(n) => seq![(k, dec_int(n as int))],
        None => Seq::empty(),
    }
}

/// Appends the pair `(k, v)`.
pub fn push_pair(params: &mut Vec<(String, String)>, k: &str, v: &str)
    ensures
        pair_views(final(params)@) == pair_views(old(params)@) + pair(k@, v@),
{
    params.push((k.to_owned(), v.to_owned()));
    assert(pair_views(params@) =~= pair_views(old(params)@) + pair(k@, v@));
}

/// Appends the pair `(k, v)` when the value is given.
pub fn push_opt(params: &mut Vec<(String, String)>, k: &str, v: &Option<String>)
    ensures
        pair_views(final(params)@) == pair_views(old(params)@) + opt_pair(k@, *v),
{
    match v {
        Some(s) => push_pair(params, k, s.as_str()),
        None => {
            assert(pair_views(params@) =~= pair_views(params@) + opt_pair(k@, *v));
        },
    }
}

/// Appends the pair `(k, decimal text of v)` when the value is given.
pub fn push_opt_int(params: &mut Vec<(String, String)>, k: &str, v: Option<i32>)
    ensures
        pair_views(final(params)@) == pair_views(old(params)@) + opt_int_pair(k@, v),
{
    match v {
        Some(n) => {
            let t = i64_text(n as i64);
            push_pair(params, k, t.as_str());
        },
        None => {
            assert(pair_views(params@) =~= pair_views(params@) + opt_int_pair(k@, v));
        },
    }
}

/// Decimal text of a count.
pub fn u32_text(n: u32) -> (r: String)
    ensures
        r@ == dec(n as nat),
{
    u64_text(n as u64)
}

/// Decimal text of a signed number.
pub fn i32_text(n: i32) -> (r: String)
    ensures
        r@ == dec_int(n as int),
{
    i64_text(n as i64)
}

// ---------------------------------------------------------------------------
// Page sizes.

/// Why a `--limit` was refused.
#[derive(Debug, Clone, Copy, PartialEq, Eq, Structural)]
pub enum LimitIssue {
    Zero,
    Over(u32),
}

/// The page size: the given limit (which must be between 1 and `max`) or
/// the default.
pub open spec fn limit_check(limit: Option<u32>, default: u32, max: u32) -> core::result::Result<u32, LimitIssue> {
    match limit {
        Some(n) => if n > max {
            Err(LimitIssue::Over(n))
        } else if n == 0 {
            Err(LimitIssue::Zero)
        } else {
            Ok(n)
        },
        None => Ok(default),
    }
}

pub fn pick_limit(limit: Option<u32>, default: u32, max: u32) -> (r: core::result::Result<u32, LimitIssue>)
    ensures
        r == limit_check(limit, default, max),
{
    match limit {
        Some(n) => if n > max {
            Err(LimitIssue::Over(n))
        } else if n == 0 {
            Err(LimitIssue::Zero)
        } else {
            Ok(n)
        },
        None => Ok(default),
    }
}

// ---------------------------------------------------------------------------
// Reading response bodies.

/// The array at `path`, or no items when there is none.
pub open spec fn array_at(body: JsonV, path: Seq<Seq<char>>) -> Seq<JsonV> {
    match body.at(path) {
        Some(JsonV::Array(xs)) => xs,
        _ => Seq::empty(),
    }
}

/// The value at `path`, or the empty array.
pub open spec fn value_at(body: JsonV, path: Seq<Seq<char>>) -> JsonV {
    match body.at(path) {
        Some(v) => v,
        None => JsonV::Array(Seq::empty()),
    }
}

/// A copy of the array at `path` (`pointer(..).and_then(as_array).cloned().unwrap_or_default()`).
pub fn items_at(body: &Json, path: &[&str]) -> (r: Json)
    ensures
        r@ == JsonV::Array(array_at(body@, views(path@))),
{
    match body.at(path) {
        Some(v) => match v {
            Json::Array(_) => deep_clone(v),
            _ => Json::empty_array(),
        },
        None => Json::empty_array(),
    }
}

/// A copy of the value at `path`, or the empty array.
pub fn value_at_or_empty(body: &Json, path: &[&str]) -> (r: Json)
    ensures
        r@ == value_at(body@, views(path@)),
{
    match body.at(path) {
        Some(v) => deep_clone(v),
        None => Json::empty_array(),
    }
}

/// The number of items of an array value.
pub open spec fn array_len(v: JsonV) -> nat {
    match v {
        JsonV::Array(xs) => xs.len(),
        _ => 0,
    }
}

/// The length of an array value, `None` for other values.
pub fn array_count(v: &Json) -> (r: Option<u64>)
    ensures
        match v@ {
            JsonV::Array(xs) => r == Some(xs.len() as u64),
            _ => r is None,
        },
{
    match v {
        Json::Array(items) => {
            proof {
                crate::json::lemma_models_index(items@);
            }
            Some(items.len() as u64)
        },
        _ => None,
    }
}

// ---------------------------------------------------------------------------
// Common refusals.

/// `--lang must be one of {choices}, got {lang:?}`.
pub open spec fn lang_choice_message(choices: Seq<char>, lang: Seq<char>) -> Seq<char> {
    "--lang must be one of "@ + choices + ", got "@ + debug_text(lang)
}

pub fn lang_choice_error(choices: &str, lang: &str) -> (r: Error)
    ensures
        r@ == verr(lang_choice_message(choices@, lang@)),
{
    let d = debug_str(lang);
    let m = cat4("--lang must be one of ", choices, ", got ", d.as_str());
    Error::new(ErrorKind::Validation, m.as_str())
}

/// A not-found error with this message.
pub open spec fn not_found(m: Seq<char>) -> ErrorV {
    ErrorV { kind: ErrorKind::NotFound, message: m, upstream_code: None, upstream_message: None, retry_after_seconds: None }
}

/// Whether a body holds no record: `null` or an empty object.
pub open spec fn empty_body(v: JsonV) -> bool {
    match v {
        JsonV::Object(m) => m.len() == 0,
        JsonV::Null => true,
        _ => false,
    }
}

pub fn is_empty_body(v: &Json) -> (r: bool)
    ensures
        r == empty_body(v@),
{
    match v {
        Json::Object(m) => {
            proof {
                crate::json::lemma_pair_models_index(m@);
            }
            m.len() == 0
        },
        Json::Null => true,
        _ => false,
    }
}

/// The upstream error description of a body that carries an `error_code`
/// member and a string `error_description`.
pub open spec fn upstream_refusal(v: JsonV) -> Option<Seq<char>> {
    if v.get("error_code"@) is Some {
        match v.get("error_description"@) {
            Some(d) => d.as_str(),
            None => None,
        }
    } else {
        None
    }
}

pub fn upstream_refusal_of(v: &Json) -> (r: Option<&str>)
    ensures
        match r {
            Some(s) => upstream_refusal(v@) == Some(s@),
            None => upstream_refusal(v@) is None,
        },
{
    if v.get("error_code").is_some() {
        match v.get("error_description") {
            Some(d) => d.as_str(),
            None => None,
        }
    } else {
        None
    }
}

} // verus!
