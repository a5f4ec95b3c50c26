//! Which `--cache-ttl` values the duration parser can read without panicking.
//!
//! `humantime::parse_duration` reads numbers (whitespace inside a number is
//! skipped), each followed by an optional fraction and a unit word, and adds
//! each to a running `Duration`. Every product and sum is checked (an
//! overflow is an error), but the final `Duration::new(secs, nanos)` panics
//! when the seconds are already `u64::MAX` and the nanoseconds a full second.
//! [`ttl_seconds_bound`] counts, for every step the parser can take before it
//! stops, at least the seconds it adds, and one more for each step that adds
//! nanoseconds; a panic needs that count to pass `u64::MAX`.
use vstd::prelude::*;
use crate::text::{chars_of, is_digit, is_ws, is_whitespace, digit_value};

verus! {

/// `u64::MAX + 1`: the count is kept no higher.
pub const SECS_CAP: u128 = 18_446_744_073_709_551_616;

/// A letter of a unit word: ASCII letters and the micro sign.
pub open spec fn is_unit_letter(c: char) -> bool {
    ('a' <= c && c <= 'z') || ('A' <= c && c <= 'Z') || c == '\u{b5}'
}

/// The end of the run of unit letters that starts at `j`.
pub open spec fn letters_end(s: Seq<char>, j: int) -> int
    decreases s.len() - j,
{
    if 0 <= j < s.len() && is_unit_letter(s[j]) {
        letters_end(s, j + 1)
    } else {
        j
    }
}

/// The unit a word names: `(true, nanoseconds per unit)` below a second,
/// `(false, seconds per unit)` otherwise; `None` for an unknown word.
pub open spec fn unit_of(w: Seq<char>) -> Option<(bool, int)> {
    if w == "nanos"@ || w == "nsec"@ || w == "ns"@ {
        Some((true, 1))
    } else if w == "usec"@ || w == "us"@ || w == "\u{b5}s"@ {
        Some((true, 1000))
    } else if w == "millis"@ || w == "msec"@ || w == "ms"@ {
        Some((true, 1_000_000))
    } else if w == "seconds"@ || w == "second"@ || w == "secs"@ || w == "sec"@ || w == "s"@ {
        Some((false, 1))
    } else if w == "minutes"@ || w == "minute"@ || w == "min"@ || w == "mins"@ || w == "m"@ {
        Some((false, 60))
    } else if w == "hours"@ || w == "hour"@ || w == "hr"@ || w == "hrs"@ || w == "h"@ {
        Some((false, 3600))
    } else if w == "days"@ || w == "day"@ || w == "d"@ {
        Some((false, 86400))
    } else if w == "weeks"@ || w == "week"@ || w == "wk"@ || w == "wks"@ || w == "w"@ {
        Some((false, 604800))
    } else if w == "months"@ || w == "month"@ || w == "M"@ {
        Some((false, 2_630_016))
    } else if w == "years"@ || w == "year"@ || w == "yr"@ || w == "yrs"@ || w == "y"@ {
        Some((false, 31_557_600))
    } else {
        None
    }
}

/// What a number `v` (with a fraction or not) in unit `u` adds to the count,
/// or `None` where the parser stops with an overflow before adding it.
pub open spec fn step_count(v: int, frac: bool, u: (bool, int)) -> Option<int> {
    let (sub, mult) = u;
    if v * mult > u64::MAX {
        None
    } else if sub {
        Some(v * mult / 1_000_000_000 + 1 + if frac { 1int } else { 0int })
    } else {
        Some(v * mult + if frac { mult } else { 0int })
    }
}

/// The count after the first `i` characters of `s`: `(count, the number
/// being read, whether its fraction has begun, whether the parser has
/// stopped)`. The count is kept at most [`SECS_CAP`].
pub open spec fn ttl_scan(s: Seq<char>, i: int) -> (int, Option<int>, bool, bool)
    decreases i,
{
    if i <= 0 || i > s.len() {
        (0, None, false, false)
    } else {
        let (t, n, f, stopped) = ttl_scan(s, i - 1);
        let c = s[i - 1];
        if stopped {
            (t, n, f, stopped)
        } else if is_digit(c) {
            match n {
                None => (t, Some(digit_value(c)), false, false),
                Some(v) => if f {
                    (t, n, f, false)
                } else if v * 10 + digit_value(c) > u64::MAX {
                    (t, n, f, true)
                } else {
                    (t, Some(v * 10 + digit_value(c)), f, false)
                },
            }
        } else if is_ws(c) {
            (t, n, f, false)
        } else if c == '.' {
            match n {
                Some(_) => (t, n, true, false),
                None => (t, n, f, false),
            }
        } else if is_unit_letter(c) {
            match n {
                Some(v) => match unit_of(s.subrange(i - 1, letters_end(s, i - 1))) {
                    Some(u) => match step_count(v, f, u) {
                        Some(k) => (if t + k < SECS_CAP { t + k } else { SECS_CAP as int }, None, false, false),
                        None => (t, n, f, true),
                    },
                    None => (t, n, f, true),
                },
                None => (t, n, f, false),
            }
        } else {
            (t, n, f, true)
        }
    }
}

/// A count of the seconds the parser adds reading `s` (see the module).
pub open spec fn ttl_seconds_bound(s: Seq<char>) -> int {
    ttl_scan(s, s.len() as int).0
}

/// A `--cache-ttl` value on which the duration parser cannot panic.
pub open spec fn ttl_text_ok(s: Seq<char>) -> bool {
    ttl_seconds_bound(s) <= u64::MAX
}

proof fn lemma_letters_end(s: Seq<char>, j: int)
    requires
        0 <= j <= s.len(),
    ensures
        j <= letters_end(s, j) <= s.len(),
    decreases s.len() - j,
{
    if j < s.len() && is_unit_letter(s[j]) {
        lemma_letters_end(s, j + 1);
    }
}

proof fn lemma_scan_ranges(s: Seq<char>, i: int)
    ensures
        0 <= ttl_scan(s, i).0 <= SECS_CAP,
        ttl_scan(s, i).1 matches Some(v) ==> 0 <= v <= u64::MAX,
    decreases i,
{
    if 0 < i <= s.len() {
        lemma_scan_ranges(s, i - 1);
        let (t, n, f, stopped) = ttl_scan(s, i - 1);
        if let Some(v) = n {
            if is_unit_letter(s[i - 1]) && !stopped {
                match unit_of(s.subrange(i - 1, letters_end(s, i - 1))) {
                    Some(u) => {
                        let (sub, mult) = u;
                        assert(mult >= 1);
                        assert(v * mult >= 0) by (nonlinear_arith)
                            requires v >= 0, mult >= 1;
                    },
                    None => {},
                }
            }
        }
    }
}

fn is_letter(c: char) -> (r: bool)
    ensures
        r == is_unit_letter(c),
{
    ('a' <= c && c <= 'z') || ('A' <= c && c <= 'Z') || c == '\u{b5}'
}

/// Whether `v[from..to]` spells `lit`.
fn spells(v: &Vec<char>, from: usize, to: usize, lit: &str) -> (r: bool)
    requires
        from <= to <= v@.len(),
    ensures
        r == (v@.subrange(from as int, to as int) == lit@),
{
    let w = chars_of(lit);
    if to - from != w.len() {
        proof {
            if v@.subrange(from as int, to as int) == lit@ {
                assert(v@.subrange(from as int, to as int).len() == w@.len());
            }
        }
        return false;
    }
    let mut i: usize = 0;
    while i < w.len()
        invariant
            from <= to <= v@.len(),
            to - from == w@.len(),
            w@ == lit@,
            i <= w@.len(),
            forall|x: int| 0 <= x < i ==> v@[from + x] == w@[x],
        decreases w@.len() - i,
    {
        if v[from + i] != w[i] {
            proof {
                assert(v@.subrange(from as int, to as int)[i as int] == v@[from + i]);
            }
            return false;
        }
        i = i + 1;
    }
    assert(v@.subrange(from as int, to as int) =~= w@);
    true
}

fn spells_any(v: &Vec<char>, from: usize, to: usize, a: &str, b: &str, c: &str, d: &str, e: &str) -> (r: bool)
    requires
        from <= to <= v@.len(),
    ensures
        r == (v@.subrange(from as int, to as int) == a@ || v@.subrange(from as int, to as int) == b@
            || v@.subrange(from as int, to as int) == c@ || v@.subrange(from as int, to as int) == d@
            || v@.subrange(from as int, to as int) == e@),
{
    spells(v, from, to, a) || spells(v, from, to, b) || spells(v, from, to, c) || spells(v, from, to, d) || spells(v, from, to, e)
}

/// The unit that `v[from..to]` names (see [`unit_of`]).
fn unit_at(v: &Vec<char>, from: usize, to: usize) -> (r: Option<(bool, u128)>)
    requires
        from <= to <= v@.len(),
    ensures
        match unit_of(v@.subrange(from as int, to as int)) {
            Some((sub, mult)) => r matches Some((rs, rm)) && rs == sub && rm as int == mult,
            None => r is None,
        },
        r matches Some((_, m)) ==> 1 <= m <= 31_557_600,
{
    if spells(v, from, to, "nanos") || spells(v, from, to, "nsec") || spells(v, from, to, "ns") {
        Some((true, 1))
    } else if spells(v, from, to, "usec") || spells(v, from, to, "us") || spells(v, from, to, "\u{b5}s") {
        Some((true, 1000))
    } else if spells(v, from, to, "millis") || spells(v, from, to, "msec") || spells(v, from, to, "ms") {
        Some((true, 1_000_000))
    } else if spells_any(v, from, to, "seconds", "second", "secs", "sec", "s") {
        Some((false, 1))
    } else if spells_any(v, from, to, "minutes", "minute", "min", "mins", "m") {
        Some((false, 60))
    } else if spells_any(v, from, to, "hours", "hour", "hr", "hrs", "h") {
        Some((false, 3600))
    } else if spells(v, from, to, "days") || spells(v, from, to, "day") || spells(v, from, to, "d") {
        Some((false, 86400))
    } else if spells_any(v, from, to, "weeks", "week", "wk", "wks", "w") {
        Some((false, 604800))
    } else if spells(v, from, to, "months") || spells(v, from, to, "month") || spells(v, from, to, "M") {
        Some((false, 2_630_016))
    } else if spells_any(v, from, to, "years", "year", "yr", "yrs", "y") {
        Some((false, 31_557_600))
    } else {
        None
    }
}

/// Whether a `--cache-ttl` value is one the duration parser cannot panic on
/// ([`ttl_text_ok`]).
pub fn cache_ttl_is_safe(s: &str) -> (r: bool)
    ensures
        r == ttl_text_ok(s@),
{
    let v = chars_of(s);
    let mut t: u128 = 0;
    let mut n: Option<u128> = None;
    let mut f: bool = false;
    let mut stopped: bool = false;
    let mut i: usize = 0;
    while i < v.len()
        invariant
            i <= v@.len(),
            v@ == s@,
            t as int == ttl_scan(v@, i as int).0,
            match ttl_scan(v@, i as int).1 {
                Some(x) => n matches Some(y) && y as int == x,
                None => n is None,
            },
            f == ttl_scan(v@, i as int).2,
            stopped == ttl_scan(v@, i as int).3,
        decreases v@.len() - i,
    {
        proof {
            lemma_scan_ranges(v@, i as int);
        }
        let c = v[i];
        if stopped {
        } else if '0' <= c && c <= '9' {
            let d: u128 = (c as u32 - '0' as u32) as u128;
            assert(d as int == digit_value(c));
            match n {
                None => {
                    n = Some(d);
                    f = false;
                },
                Some(x) => {
                    if f {
                    } else if x * 10 + d > 18_446_744_073_709_551_615u128 {
                        stopped = true;
                    } else {
                        n = Some(x * 10 + d);
                    }
                },
            }
        } else if is_whitespace(c) {
        } else if c == '.' {
            if n.is_some() {
                f = true;
            }
        } else if is_letter(c) {
            match n {
                Some(x) => {
                    let mut end: usize = i;
                    proof {
                        lemma_letters_end(v@, i as int);
                    }
                    while end < v.len() && is_letter(v[end])
                        invariant
                            i <= end <= v@.len(),
                            letters_end(v@, i as int) == letters_end(v@, end as int),
                        decreases v@.len() - end,
                    {
                        end = end + 1;
                    }
                    match unit_at(&v, i, end) {
                        Some((sub, mult)) => {
                            assert(x * mult <= 18_446_744_073_709_551_615u128 * 31_557_600) by (nonlinear_arith)
                                requires x <= 18_446_744_073_709_551_615u128, mult <= 31_557_600;
                            let p: u128 = x * mult;
                            if p > 18_446_744_073_709_551_615u128 {
                                stopped = true;
                            } else {
                                let k: u128 = if sub {
                                    p / 1_000_000_000 + 1 + if f { 1 } else { 0 }
                                } else {
                                    p + if f { mult } else { 0 }
                                };
                                t = if t + k < SECS_CAP { t + k } else { SECS_CAP };
                                n = None;
                                f = false;
                            }
                        },
                        None => {
                            stopped = true;
                        },
                    }
                },
                None => {},
            }
        } else {
            stopped = true;
        }
        i = i + 1;
    }
    t <= 18_446_744_073_709_551_615u128
}

} // verus!
