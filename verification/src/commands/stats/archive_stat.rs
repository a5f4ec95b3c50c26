//! The per-archive count endpoints (records, sources, events, comments):
//! their one filter, request and response.
use vstd::prelude::*;
use crate::commands::{ApiRequest, RequestV, opt_pair, planned, push_opt};
use crate::commands::event_records::{after, next_value, next_value_of};
use crate::cache::pair_views;
use crate::client::TtlHint;
use crate::error::{Error, ErrorKind, Result};
use crate::json::{Json, JsonV, deep_clone, lemma_models_index};
use crate::output::{Renderable, Shape};
use crate::runtime::{ApiContext, resolve_ttl, ttl_of, verr};
use crate::span::TimeSpan;
use crate::text::{cat3, cat4, is_prefix, str_eq, string_views, strip_prefix};

verus! {

#[derive(Debug, Clone)]
pub struct ArchiveStatArgs {
    pub archive: Option<String>,
}

impl Default for ArchiveStatArgs {
    /// No archive filter.
    fn default() -> (r: ArchiveStatArgs)
        ensures
            r.archive is None,
    {
        ArchiveStatArgs { archive: None }
    }
}

/// The archive filter of the tokens from position `i` on: `--archive=CODE`
/// (the code not empty) or `--archive CODE`, a later one replacing an
/// earlier; any other flag or a positional argument is refused.
pub open spec fn archive_from(rest: Seq<Seq<char>>, i: int, cmd: Seq<char>, a: Option<Seq<char>>) -> core::result::Result<Option<Seq<char>>, Seq<char>>
    decreases rest.len() - i,
{
    if i < 0 || i >= rest.len() {
        Ok(a)
    } else {
        let s = rest[i];
        if is_prefix("--archive="@, s) {
            let v = after("--archive="@, s);
            if v.len() == 0 {
                Err("--archive requires a non-empty value"@)
            } else {
                archive_from(rest, i + 1, cmd, Some(v))
            }
        } else if s == "--archive"@ {
            match next_value_of("--archive"@, rest, i + 1) {
                Ok(v) => archive_from(rest, i + 2, cmd, Some(v)),
                Err(m) => Err(m),
            }
        } else if is_prefix("--"@, s) {
            Err("unknown flag "@ + s + " for `stats "@ + cmd + "`"@)
        } else {
            Err("unexpected positional "@ + s + " for `stats "@ + cmd + "`"@)
        }
    }
}

pub fn parse_archive_rest(rest: &[String], command_name: &str) -> (r: Result<ArchiveStatArgs>)
    ensures
        match archive_from(string_views(rest@), 0, command_name@, None) {
            Ok(a) => r is Ok && match (r->Ok_0.archive, a) {
                (Some(x), Some(y)) => x@ == y,
                (None, None) => true,
                _ => false,
            },
            Err(m) => r is Err && r->Err_0@ == verr(m),
        },
{
    let ghost rs = string_views(rest@);
    let mut archive: Option<String> = None;
    let mut i: usize = 0;
    while i < rest.len()
        invariant
            i <= rest@.len(),
            rs == string_views(rest@),
            archive_from(rs, 0, command_name@, None) == archive_from(
                rs,
                i as int,
                command_name@,
                match archive { Some(x) => Some(x@), None => None },
            ),
        decreases rest@.len() - i,
    {
        let s = rest[i].as_str();
        assert(rs[i as int] == s@);
        if let Some(v) = strip_prefix(s, "--archive=") {
            if v.unicode_len() == 0 {
                return Err(Error::new(ErrorKind::Validation, "--archive requires a non-empty value"));
            }
            archive = Some(v);
            i = i + 1;
        } else if str_eq(s, "--archive") {
            let v = match next_value("--archive", rest, i + 1) {
                Ok(v) => v,
                Err(e) => return Err(e),
            };
            archive = Some(v);
            i = i + 2;
        } else if strip_prefix(s, "--").is_some() {
            let m = cat4("unknown flag ", s, " for `stats ", command_name);
            let m2 = crate::text::cat2(m.as_str(), "`");
            return Err(Error::new(ErrorKind::Validation, m2.as_str()));
        } else {
            let m = cat4("unexpected positional ", s, " for `stats ", command_name);
            let m2 = crate::text::cat2(m.as_str(), "`");
            return Err(Error::new(ErrorKind::Validation, m2.as_str()));
        }
    }
    Ok(ArchiveStatArgs { archive })
}

/// The request of a per-archive count endpoint: no pagination, Dutch only,
/// the archive filter when given; counts live a day.
pub open spec fn archive_stat_plan(cmd: Seq<char>, path: Seq<char>, ctx: ApiContext, a: ArchiveStatArgs) -> core::result::Result<RequestV, Seq<char>> {
    if ctx.limit is Some || ctx.offset is Some {
        Err("--limit/--offset not supported by `stats "@ + cmd + "`"@)
    } else if ctx.lang@ != "nl"@ {
        Err("--lang not supported by `stats "@ + cmd + "`"@)
    } else {
        Ok(RequestV {
            path,
            pairs: opt_pair("archive_code"@, a.archive),
            ttl: ttl_of(ctx.cache_ttl_override, TtlHint::Fixed(TimeSpan { secs: 86400, nanos: 0 })),
            page_limit: None,
            page_offset: None,
        })
    }
}

pub fn archive_stat_request(command_name: &str, path: &str, ctx: &ApiContext, args: &ArchiveStatArgs) -> (r: Result<ApiRequest>)
    ensures
        planned(r, archive_stat_plan(command_name@, path@, *ctx, *args)),
{
    if ctx.limit.is_some() || ctx.offset.is_some() {
        let m = cat3("--limit/--offset not supported by `stats ", command_name, "`");
        return Err(Error::new(ErrorKind::Validation, m.as_str()));
    }
    if !str_eq(ctx.lang.as_str(), "nl") {
        let m = cat3("--lang not supported by `stats ", command_name, "`");
        return Err(Error::new(ErrorKind::Validation, m.as_str()));
    }
    let mut params: Vec<(String, String)> = Vec::new();
    push_opt(&mut params, "archive_code", &args.archive);
    assert(pair_views(params@) =~= opt_pair("archive_code"@, args.archive));
    let ttl = resolve_ttl(ctx, TtlHint::Fixed(TimeSpan::from_secs(24 * 3600)));
    Ok(ApiRequest { path: path.to_owned(), params, ttl, page_limit: None, page_offset: None })
}

/// The rows of a per-archive count body: the body itself when it is an
/// array, else the array under the member `key` (the older wrapped form).
pub open spec fn archive_rows(body: JsonV, key: Seq<char>) -> Seq<JsonV> {
    match body {
        JsonV::Array(xs) => xs,
        _ => match body.get(key) {
            Some(JsonV::Array(xs)) => xs,
            _ => Seq::empty(),
        },
    }
}

/// The rows as an unpaginated list; the total is their number.
pub fn archive_stat_shape(body: &Json, key: &str) -> (r: Renderable)
    ensures
        r.shape == Shape::List,
        r.body@ == JsonV::Array(archive_rows(body@, key@)),
        !r.paginated,
        r.limit is None,
        r.offset is None,
        r.total == Some(archive_rows(body@, key@).len() as u64),
{
    let rows: &Json = match body {
        Json::Array(_) => body,
        _ => match body.get(key) {
            Some(v) => v,
            None => body,
        },
    };
    let (items, n) = match rows {
        Json::Array(xs) => {
            proof {
                lemma_models_index(xs@);
            }
            (deep_clone(rows), xs.len() as u64)
        },
        _ => (Json::empty_array(), 0u64),
    };
    Renderable::list(items, false, None, None).with_total(Some(n))
}

} // verus!
