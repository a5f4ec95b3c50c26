//! The command line: global flags, subcommands and their arguments, and the
//! value checks that the parser applies to some of them.
use vstd::prelude::*;
use crate::span::TimeSpan;
use crate::text::{cat2, debug_str, debug_text, i64_text, is_digit, all_digits, parse_i32, parse_int_spec, dec_int, lower_seq, ascii_lowercase, str_eq, chars_of, string_of};

verus! {

/// The values of `--output`.
#[derive(Debug, Clone, Copy, PartialEq, Eq, Structural)]
pub enum FormatArg {
    Json,
    Ndjson,
    Table,
    Markdown,
}

/// The parsed command line.
#[derive(Debug, Clone)]
pub struct Cli {
    /// Output format. Defaults: TTY → table, pipe → json.
    pub output: Option<FormatArg>,
    /// Pretty-print JSON output.
    pub pretty: bool,
    /// Suppress stderr progress output.
    pub quiet: bool,
    /// Disable ANSI colors (also `NO_COLOR`).
    pub no_color: bool,
    pub command: Cmd,
}

#[derive(Debug, Clone)]
pub enum Cmd {
    /// Free-text record search.
    Search(SearchArgs),
    /// Show a single record by archive + identifier.
    Show(ShowArgs),
    /// Score-matched record lookup (`match`).
    MatchCmd(MatchArgs),
    /// Birth-event records.
    Births(BirthsArgs),
    /// Death-event records.
    Deaths(DeathsArgs),
    /// Marriage-event records.
    Marriages(MarriagesArgs),
    /// Anniversary records.
    Yearsago(YearsagoArgs),
    /// List archives.
    Archives(ArchivesArgs),
    /// Census records by place/year.
    Census(CensusArgs),
    /// Historical weather observations.
    Weather(WeatherArgs),
    /// Aggregate statistics endpoints.
    Stats(StatsCmd),
    /// Cache management.
    Cache(CacheCmd),
    /// Print the machine-readable schema.
    Schema,
    /// Print the binary version.
    Version,
}

#[derive(Debug, Clone)]
pub enum StatsCmd {
    Records(ApiArgs),
    Sources(ApiArgs),
    Events(ApiArgs),
    Comments(ApiArgs),
    Familynames(ApiArgs),
    Firstnames(ApiArgs),
    Professions(ApiArgs),
}

#[derive(Debug, Clone)]
pub enum CacheCmd {
    /// Show cache location, entry count, and disk usage.
    Info,
    /// Wipe all cache entries (requires `--yes`).
    Clear { yes: bool },
    /// Drop expired entries.
    Prune,
}

/// Per-command flags shared by every endpoint subcommand.
#[derive(Debug, Clone)]
pub struct GlobalApiArgs {
    /// Per-request timeout.
    pub timeout: Option<TimeSpan>,
    /// Bypass cache read AND write for this invocation.
    pub no_cache: bool,
    /// Bypass cache read; still write.
    pub refresh: bool,
    /// Override cache TTL for this invocation. `inf` = never expire.
    pub cache_ttl: Option<String>,
    /// Override cache directory.
    pub cache_dir: Option<String>,
    /// Top-level field projection (comma-separated).
    pub fields: Option<String>,
    /// Pagination limit (where supported).
    pub limit: Option<u32>,
    /// Pagination offset (where supported).
    pub offset: Option<u32>,
    /// Response language.
    pub lang: Option<String>,
}

impl Default for GlobalApiArgs {
    /// No flag given.
    fn default() -> (r: GlobalApiArgs)
        ensures
            r.timeout is None,
            !r.no_cache,
            !r.refresh,
            r.cache_ttl is None,
            r.cache_dir is None,
            r.fields is None,
            r.limit is None,
            r.offset is None,
            r.lang is None,
    {
        GlobalApiArgs {
            timeout: None,
            no_cache: false,
            refresh: false,
            cache_ttl: None,
            cache_dir: None,
            fields: None,
            limit: None,
            offset: None,
            lang: None,
        }
    }
}

#[derive(Debug, Clone)]
pub struct YearsagoArgs {
    pub global: GlobalApiArgs,
    /// Number of years ago.
    pub years: u32,
}

#[derive(Debug, Clone)]
pub struct ArchivesArgs {
    pub global: GlobalApiArgs,
}

#[derive(Debug, Clone)]
pub struct CensusArgs {
    pub global: GlobalApiArgs,
    /// Year (YYYY).
    pub year: i32,
    pub place: Option<String>,
    pub gg_uri: Option<String>,
    pub province: Option<String>,
    /// Detail level: 1, 2, or 3 (3 = most detailed).
    pub richness: Option<i32>,
}

#[derive(Debug, Clone)]
pub struct WeatherArgs {
    pub global: GlobalApiArgs,
    /// Date as YYYY-MM-DD.
    pub date: String,
    /// Decimal latitude.
    pub latitude: String,
    /// Decimal longitude.
    pub longitude: String,
}

#[derive(Debug, Clone)]
pub struct ShowArgs {
    pub global: GlobalApiArgs,
    /// Archive code (e.g. `srt`, `elo`, `saa`).
    pub archive: String,
    /// Record identifier within that archive.
    pub identifier: String,
}

#[derive(Debug, Clone)]
pub struct MatchArgs {
    pub global: GlobalApiArgs,
    /// Person name to match.
    pub name: String,
    /// Birth year (YYYY).
    pub birthyear: i32,
}

#[derive(Debug, Clone)]
pub struct SearchArgs {
    pub global: GlobalApiArgs,
    /// Free-text query (typically a person name).
    pub name: String,
    pub archive: Option<String>,
    pub source_type: Option<String>,
    pub event_place: Option<String>,
    pub birth_place: Option<String>,
    pub relation_type: Option<String>,
    pub country: Option<String>,
    /// Sort order: -6..=-1 or 1..=6.
    pub sort: Option<i32>,
}

#[derive(Debug, Clone)]
pub struct BirthsArgs {
    pub global: GlobalApiArgs,
    pub name: String,
    pub event_year: Option<i32>,
    pub event_place: Option<String>,
    pub event_province: Option<String>,
}

#[derive(Debug, Clone)]
pub struct DeathsArgs {
    pub global: GlobalApiArgs,
    pub name: String,
    pub event_year: Option<i32>,
    pub event_place: Option<String>,
}

#[derive(Debug, Clone)]
pub struct MarriagesArgs {
    pub global: GlobalApiArgs,
    pub name1: String,
    pub name2: String,
    pub event_year: Option<i32>,
    pub event_place: Option<String>,
}

/// The flags of the statistics subcommands, with every remaining argument
/// left in `rest` for the command's own validator.
#[derive(Debug, Clone)]
pub struct ApiArgs {
    pub timeout: Option<TimeSpan>,
    pub no_cache: bool,
    pub refresh: bool,
    pub cache_ttl: Option<String>,
    pub cache_dir: Option<String>,
    pub fields: Option<String>,
    pub limit: Option<u32>,
    pub offset: Option<u32>,
    pub lang: Option<String>,
    pub rest: Vec<String>,
}

impl ApiArgs {
    /// The shared API flags of these arguments.
    pub fn global(&self) -> (r: GlobalApiArgs)
        ensures
            r.timeout == self.timeout,
            r.no_cache == self.no_cache,
            r.refresh == self.refresh,
            r.cache_ttl == self.cache_ttl,
            r.cache_dir == self.cache_dir,
            r.fields == self.fields,
            r.limit == self.limit,
            r.offset == self.offset,
            r.lang == self.lang,
    {
        GlobalApiArgs {
            timeout: self.timeout,
            no_cache: self.no_cache,
            refresh: self.refresh,
            cache_ttl: self.cache_ttl.clone(),
            cache_dir: self.cache_dir.clone(),
            fields: self.fields.clone(),
            limit: self.limit,
            offset: self.offset,
            lang: self.lang.clone(),
        }
    }
}

// ---------------------------------------------------------------------------
// Decimal numbers, as `f64::from_str` accepts them.

/// `f64::from_str`'s grammar, case-insensitively:
/// `[+-]? ( inf | infinity | nan | Number )`, where
/// `Number ::= ( Digit+ | Digit+ '.' Digit* | Digit* '.' Digit+ ) ( 'e' [+-]? Digit+ )?`.
pub open spec fn float_syntax(s: Seq<char>) -> bool {
    let start: int = if s.len() > 0 && (s[0] == '+' || s[0] == '-') { 1 } else { 0 };
    let body = s.subrange(start, s.len() as int);
    let l = lower_seq(body);
    l == "inf"@ || l == "infinity"@ || l == "nan"@ || number_syntax(body)
}

/// The position of the first character of `s` that is not a digit, from `i`.
pub open spec fn digits_end(s: Seq<char>, i: int) -> int
    decreases s.len() - i,
{
    if i < 0 || i >= s.len() || !is_digit(s[i]) {
        i
    } else {
        digits_end(s, i + 1)
    }
}

/// `( Digit+ | Digit+ '.' Digit* | Digit* '.' Digit+ ) ( [eE] [+-]? Digit+ )?`.
pub open spec fn number_syntax(s: Seq<char>) -> bool {
    let a = digits_end(s, 0);
    let has_dot = a < s.len() && s[a] == '.';
    let b = if has_dot { digits_end(s, a + 1) } else { a };
    let mantissa_digits = a + if has_dot { b - (a + 1) } else { 0 };
    &&& mantissa_digits > 0
    &&& (b == s.len() || exponent_syntax(s.subrange(b, s.len() as int)))
}

/// `[eE] [+-]? Digit+`.
pub open spec fn exponent_syntax(s: Seq<char>) -> bool {
    &&& s.len() >= 2
    &&& (s[0] == 'e' || s[0] == 'E')
    &&& {
        let k: int = if s[1] == '+' || s[1] == '-' { 2 } else { 1 };
        k < s.len() && all_digits(s.subrange(k, s.len() as int))
    }
}

proof fn lemma_digits_end_bounds(s: Seq<char>, i: int)
    requires
        0 <= i <= s.len(),
    ensures
        i <= digits_end(s, i) <= s.len(),
        forall|j: int| i <= j < digits_end(s, i) ==> is_digit(#[trigger] s[j]),
        digits_end(s, i) < s.len() ==> !is_digit(s[digits_end(s, i)]),
    decreases s.len() - i,
{
    if i < s.len() && is_digit(s[i]) {
        lemma_digits_end_bounds(s, i + 1);
    }
}

fn scan_digits(v: &Vec<char>, i: usize) -> (r: usize)
    requires
        i <= v@.len(),
    ensures
        r == digits_end(v@, i as int),
{
    let mut j = i;
    while j < v.len() && '0' <= v[j] && v[j] <= '9'
        invariant
            i <= j <= v@.len(),
            digits_end(v@, i as int) == digits_end(v@, j as int),
        decreases v@.len() - j,
    {
        j = j + 1;
    }
    j
}

#[verifier::rlimit(60)]
fn is_number(v: &Vec<char>, from: usize) -> (r: bool)
    requires
        from <= v@.len(),
    ensures
        r == number_syntax(v@.subrange(from as int, v@.len() as int)),
{
    let ghost s = v@.subrange(from as int, v@.len() as int);
    let a = scan_digits(v, from);
    proof {
        lemma_digits_end_bounds(v@, from as int);
        lemma_digits_shift(v@, from as int, 0);
    }
    let has_dot = a < v.len() && v[a] == '.';
    let b = if has_dot { scan_digits(v, a + 1) } else { a };
    proof {
        if has_dot {
            lemma_digits_end_bounds(v@, a + 1);
            lemma_digits_shift(v@, from as int, a + 1 - from);
        }
    }
    let digits = (a - from) + if has_dot { b - (a + 1) } else { 0 };
    if digits == 0 {
        return false;
    }
    if b == v.len() {
        return true;
    }
    assert(s.subrange(b - from, s.len() as int) =~= v@.subrange(b as int, v@.len() as int));
    if v[b] != 'e' && v[b] != 'E' {
        return false;
    }
    if b + 1 >= v.len() {
        return false;
    }
    let k = if v[b + 1] == '+' || v[b + 1] == '-' { b + 2 } else { b + 1 };
    if k >= v.len() {
        return false;
    }
    let e = scan_digits(v, k);
    proof {
        lemma_digits_end_bounds(v@, k as int);
        let t = v@.subrange(b as int, v@.len() as int);
        assert(t.subrange(k - b, t.len() as int) =~= v@.subrange(k as int, v@.len() as int));
        if e < v@.len() {
            assert(v@.subrange(k as int, v@.len() as int)[e - k] == v@[e as int]);
        }
    }
    e == v.len()
}

/// `digits_end` of a suffix, shifted back to the whole sequence.
proof fn lemma_digits_shift(v: Seq<char>, from: int, i: int)
    requires
        0 <= from <= v.len(),
        0 <= i <= v.len() - from,
    ensures
        digits_end(v.subrange(from, v.len() as int), i) == digits_end(v, from + i) - from,
    decreases v.len() - from - i,
{
    let s = v.subrange(from, v.len() as int);
    if i < s.len() && is_digit(s[i]) {
        lemma_digits_shift(v, from, i + 1);
    }
}

/// Whether `s` is a number that `f64::from_str` accepts.
pub fn is_float_text(s: &str) -> (r: bool)
    ensures
        r == float_syntax(s@),
{
    let v = chars_of(s);
    let start: usize = if v.len() > 0 && (v[0] == '+' || v[0] == '-') { 1 } else { 0 };
    let body = string_of(&v, start, v.len());
    let l = ascii_lowercase(body.as_str());
    if str_eq(l.as_str(), "inf") || str_eq(l.as_str(), "infinity") || str_eq(l.as_str(), "nan") {
        return true;
    }
    is_number(&v, start)
}

/// The check `--latitude` and `--longitude` go through: a decimal number, kept as written.
pub fn parse_decimal_str(s: &str) -> (r: Result<String, String>)
    ensures
        float_syntax(s@) ==> r is Ok && r->Ok_0@ == s@,
        !float_syntax(s@) ==> r is Err && r->Err_0@ == "must be a decimal number, got "@ + debug_text(s@),
{
    if is_float_text(s) {
        Ok(s.to_owned())
    } else {
        let d = debug_str(s);
        Err(cat2("must be a decimal number, got ", d.as_str()))
    }
}

/// The check `--sort` goes through: an integer in `-6..=-1` or `1..=6`.
pub fn parse_sort_arg(s: &str) -> (r: Result<i32, String>)
    ensures
        match parse_int_spec(s@, true, i32::MIN as int, i32::MAX as int) {
            None => r is Err && r->Err_0@ == "not an integer: "@ + s@,
            Some(n) => if n != 0 && -6 <= n <= 6 {
                r == Ok::<i32, String>(n as i32)
            } else {
                r is Err && r->Err_0@ == "must be in -6..=-1 or 1..=6, got "@ + dec_int(n)
            },
        },
{
    match parse_i32(s) {
        None => Err(cat2("not an integer: ", s)),
        Some(n) => {
            if n == 0 || n < -6 || n > 6 {
                let t = i64_text(n as i64);
                Err(cat2("must be in -6..=-1 or 1..=6, got ", t.as_str()))
            } else {
                Ok(n)
            }
        },
    }
}

} // verus!
