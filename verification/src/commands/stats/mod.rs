//! The statistics endpoints, and the checks they share.
use vstd::prelude::*;
use crate::error::{Error, ErrorKind};
use crate::runtime::verr;
use crate::text::{cat4, cat5, dec_int, i64_text};

pub mod archive_stat;
pub mod breakdown;
pub mod comments;
pub mod events;
pub mod familynames;
pub mod firstnames;
pub mod professions;
pub mod records;
pub mod sources;

verus! {

/// The event types the statistics endpoints know: all, birth, marriage,
/// death, notarial.
pub open spec fn event_type_ok(t: i32) -> bool {
    t == 0 || t == 1 || t == 2 || t == 3 || t == 6
}

pub fn is_event_type(t: i32) -> (r: bool)
    ensures
        r == event_type_ok(t),
{
    t == 0 || t == 1 || t == 2 || t == 3 || t == 6
}

/// A year range refusal: `{flag} must be {lo}..={hi}, got {y}`.
pub open spec fn year_range_message(flag: Seq<char>, lo: i32, hi: i32, y: i32) -> Seq<char> {
    flag + " must be "@ + dec_int(lo as int) + "..="@ + dec_int(hi as int) + ", got "@ + dec_int(y as int)
}

pub fn year_range_error(flag: &str, lo: i32, hi: i32, y: i32) -> (r: Error)
    ensures
        r@ == verr(year_range_message(flag@, lo, hi, y)),
{
    let a = i64_text(lo as i64);
    let b = i64_text(hi as i64);
    let c = i64_text(y as i64);
    let m1 = cat4(flag, " must be ", a.as_str(), "..=");
    let m = cat4(m1.as_str(), b.as_str(), ", got ", c.as_str());
    assert(m@ == year_range_message(flag@, lo, hi, y));
    Error::new(ErrorKind::Validation, m.as_str())
}

/// An inverted range: `--year-start ({s}) must be <= --year-end ({e})`.
pub open spec fn year_order_message(s: i32, e: i32) -> Seq<char> {
    "--year-start ("@ + dec_int(s as int) + ") must be <= --year-end ("@ + dec_int(e as int) + ")"@
}

pub fn year_order_error(s: i32, e: i32) -> (r: Error)
    ensures
        r@ == verr(year_order_message(s, e)),
{
    let a = i64_text(s as i64);
    let b = i64_text(e as i64);
    let m = cat5("--year-start (", a.as_str(), ") must be <= --year-end (", b.as_str(), ")");
    Error::new(ErrorKind::Validation, m.as_str())
}

/// The first refusal of an optional year range within `lo..=hi`: the start
/// out of range, the end out of range, or the start after the end.
pub open spec fn year_span_issue(start: Option<i32>, end: Option<i32>, lo: i32, hi: i32) -> Option<Seq<char>> {
    match start {
        Some(y) if !(lo <= y <= hi) => Some(year_range_message("--year-start"@, lo, hi, y)),
        _ => match end {
            Some(y) if !(lo <= y <= hi) => Some(year_range_message("--year-end"@, lo, hi, y)),
            _ => match (start, end) {
                (Some(s), Some(e)) if s > e => Some(year_order_message(s, e)),
                _ => None,
            },
        },
    }
}

pub fn check_year_span(start: Option<i32>, end: Option<i32>, lo: i32, hi: i32) -> (r: Option<Error>)
    ensures
        match year_span_issue(start, end, lo, hi) {
            Some(m) => r is Some && r->0@ == verr(m),
            None => r is None,
        },
{
    if let Some(y) = start {
        if !(lo <= y && y <= hi) {
            return Some(year_range_error("--year-start", lo, hi, y));
        }
    }
    if let Some(y) = end {
        if !(lo <= y && y <= hi) {
            return Some(year_range_error("--year-end", lo, hi, y));
        }
    }
    match (start, end) {
        (Some(s), Some(e)) => if s > e {
            Some(year_order_error(s, e))
        } else {
            None
        },
        _ => None,
    }
}

} // verus!
