//! Request policy of the API client: base URL, URLs, cache keys and modes,
//! retries with backoff, and how HTTP failures map to errors.
use vstd::prelude::*;
use vstd::utf8::{decode_utf8, valid_utf8};
use crate::ordered::keys_ascending;
use crate::cache::{Ttl, key, key_spec, pair_views, url_serialization, url_parse_serialize};
use crate::error::{Error, ErrorKind, ErrorV, Result};
use crate::json::{Json, JsonV};
use crate::span::TimeSpan;
use crate::text::{cat2, cat3, chars_of, dec, parse_int_spec, parse_u64, put, has_at_pos, pos_of, lemma_pos_of_bound, seq_lt, str_eq, str_lt, string_of, strip_end, strip_end_seq, u64_text};

verus! {

#[derive(Debug, Clone, Copy, PartialEq, Eq, Structural)]
pub enum CacheMode {
    /// Read and write the cache.
    Default,
    /// Skip the read, still write.
    Refresh,
    /// Skip both read and write.
    Bypass,
}

/// What an endpoint says about caching one request.
#[derive(Debug, Clone, Copy, PartialEq, Eq, Structural)]
pub enum TtlHint {
    Fixed(TimeSpan),
    UntilMidnight,
    Never,
    /// Not cached.
    Uncached,
}

impl TtlHint {
    /// The cache lifetime for this hint; `None` means the response is not cached.
    pub open spec fn cache_ttl(self) -> Option<Ttl> {
        match self {
            TtlHint::Fixed(d) => Some(Ttl::Fixed(d)),
            TtlHint::UntilMidnight => Some(Ttl::UntilMidnight),
            TtlHint::Never => Some(Ttl::Never),
            TtlHint::Uncached => None::<Ttl>,
        }
    }

    pub fn to_cache_ttl(self) -> (r: Option<Ttl>)
        ensures
            r == self.cache_ttl(),
    {
        match self {
            TtlHint::Fixed(d) => Some(Ttl::Fixed(d)),
            TtlHint::UntilMidnight => Some(Ttl::UntilMidnight),
            TtlHint::Never => Some(Ttl::Never),
            TtlHint::Uncached => None,
        }
    }
}

pub const DEFAULT_BASE_URL: &'static str = "https://api.openarchieven.nl/1.1";
pub const ENV_BASE_URL: &'static str = "OPENARCHIEVEN_BASE_URL";
pub const MAX_ATTEMPTS: u32 = 3;
pub const BASE_BACKOFF_MS: u64 = 500;
pub const MAX_BACKOFF_MS: u64 = 5000;

#[derive(Debug, Clone)]
pub struct ClientConfig {
    pub base_url: String,
    pub timeout: TimeSpan,
    pub lang: String,
    pub rate_limit_per_sec: u32,
    pub cache_mode: CacheMode,
}

impl ClientConfig {
    /// The default configuration: the public API, 30 s timeout, Dutch, four
    /// requests per second, normal caching.
    pub fn default() -> (r: ClientConfig)
        ensures
            r.base_url@ == DEFAULT_BASE_URL@,
            r.timeout == (TimeSpan { secs: 30, nanos: 0 }),
            r.lang@ == "nl"@,
            r.rate_limit_per_sec == 4,
            r.cache_mode == CacheMode::Default,
    {
        ClientConfig {
            base_url: DEFAULT_BASE_URL.to_owned(),
            timeout: TimeSpan::from_secs(30),
            lang: "nl".to_owned(),
            rate_limit_per_sec: 4,
            cache_mode: CacheMode::Default,
        }
    }
}

/// The API base URL: explicit, else the environment's, else the default;
/// trailing slashes removed.
pub open spec fn base_url_of(explicit: Option<Seq<char>>, env: Option<Seq<char>>) -> Seq<char> {
    strip_end_seq(
        match explicit {
            Some(e) => e,
            None => match env {
                Some(v) => v,
                None => DEFAULT_BASE_URL@,
            },
        },
        '/',
    )
}

pub open spec fn opt_str_view(o: Option<&str>) -> Option<Seq<char>> {
    match o {
        Some(s) => Some(s@),
        None => None,
    }
}

/// `env` is the value of `OPENARCHIEVEN_BASE_URL`, when set.
pub fn resolve_base_url(explicit: Option<&str>, env: Option<&str>) -> (r: String)
    ensures
        r@ == base_url_of(opt_str_view(explicit), opt_str_view(env)),
{
    let raw = match explicit {
        Some(e) => e,
        None => match env {
            Some(v) => v,
            None => DEFAULT_BASE_URL,
        },
    };
    strip_end(raw, '/')
}

/// What `url::Url::parse(joined)` followed by appending each pair with
/// `query_pairs_mut().append_pair` serializes to, or the parse error's text.
pub uninterp spec fn url_with_query(joined: Seq<char>, pairs: Seq<(Seq<char>, Seq<char>)>) -> core::result::Result<Seq<char>, Seq<char>>;

/// `url::Url::parse(joined)`; on success every pair is appended to the query
/// (form-urlencoded) and the URL serialized; on failure the error's text.
#[verifier::external_body]
fn url_join_query(joined: &str, params: &[(String, String)]) -> (r: core::result::Result<String, String>)
    ensures
        match r {
            Ok(u) => url_with_query(joined@, pair_views(params@)) == Ok::<Seq<char>, Seq<char>>(u@),
            Err(e) => url_with_query(joined@, pair_views(params@)) == Err::<Seq<char>, Seq<char>>(e@),
        },
{
    match url::Url::parse(joined) {
        Ok(mut url) => {
            let mut pairs = url.query_pairs_mut();
            for (k, v) in params {
                pairs.append_pair(k, v);
            }
            drop(pairs);
            Ok(url.as_str().to_owned())
        },
        Err(e) => Err(e.to_string()),
    }
}

/// The URL that [`build_url`] gives, or the parse error's text: with no
/// query parameters the parsed URL as it serializes (no query), otherwise
/// the URL with every pair appended, in name order.
pub open spec fn url_of(joined: Seq<char>, params: Seq<(Seq<char>, Seq<char>)>) -> core::result::Result<Seq<char>, Seq<char>> {
    if params.len() == 0 {
        url_serialization(joined)
    } else {
        url_with_query(joined, name_sorted(params))
    }
}

/// The URL of an API path: the base (trailing slashes removed) followed by the
/// path, with every query pair appended, sorted by name (pairs with the same
/// name keep their order, see [`name_sorted`]).
pub fn build_url(base_url: &str, path: &str, params: &[(String, String)]) -> (r: Result<String>)
    ensures
        match url_of(strip_end_seq(base_url@, '/') + path@, pair_views(params@)) {
            Ok(u) => r is Ok && r->Ok_0@ == u,
            Err(e) => r is Err && r->Err_0@.kind == ErrorKind::Validation && r->Err_0@.message == "bad url: "@ + e,
        },
{
    let base = strip_end(base_url, '/');
    let joined = cat2(base.as_str(), path);
    let res = if params.len() == 0 {
        url_parse_serialize(joined.as_str())
    } else {
        let sorted = name_sorted_params(params);
        url_join_query(joined.as_str(), sorted.as_slice())
    };
    match res {
        Ok(u) => Ok(u),
        Err(e) => {
            let m = cat2("bad url: ", e.as_str());
            Err(Error::new(ErrorKind::Validation, m.as_str()))
        },
    }
}

/// The place of a pair named `k` in a list sorted by name: after every pair
/// whose name is not above `k`.
pub open spec fn after_pos(entries: Seq<(Seq<char>, Seq<char>)>, k: Seq<char>) -> nat
    decreases entries.len(),
{
    if entries.len() > 0 && !seq_lt(k, entries[0].0) {
        1 + after_pos(entries.drop_first(), k)
    } else {
        0
    }
}

/// The query pairs sorted by name, every pair kept; pairs with the same name
/// stay in the order given (an insertion sort).
pub open spec fn name_sorted(params: Seq<(Seq<char>, Seq<char>)>) -> Seq<(Seq<char>, Seq<char>)>
    decreases params.len(),
{
    if params.len() == 0 {
        Seq::empty()
    } else {
        let prev = name_sorted(params.drop_last());
        prev.insert(after_pos(prev, params.last().0) as int, params.last())
    }
}

/// Where `after_pos` places `k`: every earlier pair's name is not above `k`,
/// and the pair at that place, if any, has a name above `k`.
pub proof fn lemma_after_pos(entries: Seq<(Seq<char>, Seq<char>)>, k: Seq<char>)
    ensures
        after_pos(entries, k) <= entries.len(),
        forall|i: int| 0 <= i < after_pos(entries, k) ==> !seq_lt(k, #[trigger] entries[i].0),
        after_pos(entries, k) < entries.len() ==> seq_lt(k, entries[after_pos(entries, k) as int].0),
    decreases entries.len(),
{
    if entries.len() > 0 && !seq_lt(k, entries[0].0) {
        let rest = entries.drop_first();
        lemma_after_pos(rest, k);
        assert forall|i: int| 0 <= i < after_pos(entries, k) implies !seq_lt(k, #[trigger] entries[i].0) by {
            if i > 0 {
                assert(entries[i] == rest[i - 1]);
            }
        }
        if after_pos(entries, k) < entries.len() {
            assert(entries[after_pos(entries, k) as int] == rest[after_pos(rest, k) as int]);
        }
    }
}

/// The query pairs sorted by name, every pair kept (see [`name_sorted`]).
pub fn name_sorted_params(params: &[(String, String)]) -> (r: Vec<(String, String)>)
    ensures
        pair_views(r@) == name_sorted(pair_views(params@)),
{
    let mut r: Vec<(String, String)> = Vec::new();
    let ghost pv = pair_views(params@);
    let mut i: usize = 0;
    assert(pv.subrange(0, 0) =~= Seq::<(Seq<char>, Seq<char>)>::empty());
    assert(pair_views(r@) =~= Seq::<(Seq<char>, Seq<char>)>::empty());
    while i < params.len()
        invariant
            i <= params@.len(),
            pv == pair_views(params@),
            pair_views(r@) == name_sorted(pv.subrange(0, i as int)),
        decreases params@.len() - i,
    {
        assert(pv.subrange(0, i + 1).drop_last() =~= pv.subrange(0, i as int));
        assert(pv.subrange(0, i + 1).last() == (params@[i as int].0@, params@[i as int].1@));
        let k = params[i].0.as_str();
        let ghost rv = pair_views(r@);
        let mut j: usize = 0;
        assert(rv.subrange(0, rv.len() as int) =~= rv);
        while j < r.len() && !str_lt(k, r[j].0.as_str())
            invariant
                j <= r@.len(),
                rv == pair_views(r@),
                after_pos(rv, k@) == j + after_pos(rv.subrange(j as int, rv.len() as int), k@),
            decreases r@.len() - j,
        {
            let ghost rest = rv.subrange(j as int, rv.len() as int);
            assert(rest.drop_first() =~= rv.subrange(j + 1, rv.len() as int));
            assert(rest[0] == (r@[j as int].0@, r@[j as int].1@));
            j = j + 1;
        }
        proof {
            let rest = rv.subrange(j as int, rv.len() as int);
            if j < r@.len() {
                assert(rest[0] == (r@[j as int].0@, r@[j as int].1@));
            }
            assert(after_pos(rest, k@) == 0);
        }
        r.insert(j, (params[i].0.clone(), params[i].1.clone()));
        assert(pair_views(r@) =~= rv.insert(j as int, (params@[i as int].0@, params@[i as int].1@)));
        i = i + 1;
    }
    assert(pv.subrange(0, params@.len() as int) =~= pv);
    r
}

/// Query parameters as a sorted map: ascending by name, a later value for the
/// same name replacing an earlier one.
pub open spec fn sorted_pairs(params: Seq<(Seq<char>, Seq<char>)>) -> Seq<(Seq<char>, Seq<char>)>
    decreases params.len(),
{
    if params.len() == 0 {
        Seq::empty()
    } else {
        put(sorted_pairs(params.drop_last()), params.last().0, params.last().1)
    }
}

fn map_put(entries: &mut Vec<(String, String)>, k: &str, v: &str)
    ensures
        pair_views(final(entries)@) == put(pair_views(old(entries)@), k@, v@),
{
    let ghost pv = pair_views(entries@);
    let mut i: usize = 0;
    assert(pv.subrange(0, pv.len() as int) =~= pv);
    while i < entries.len() && str_lt(entries[i].0.as_str(), k)
        invariant
            i <= entries@.len(),
            pv == pair_views(entries@),
            pos_of(pv, k@) == i + pos_of(pv.subrange(i as int, pv.len() as int), k@),
        decreases entries@.len() - i,
    {
        let ghost rest = pv.subrange(i as int, pv.len() as int);
        assert(rest.drop_first() =~= pv.subrange(i + 1, pv.len() as int));
        assert(rest[0] == (entries@[i as int].0@, entries@[i as int].1@));
        i = i + 1;
    }
    proof {
        let rest = pv.subrange(i as int, pv.len() as int);
        if i < entries@.len() {
            assert(rest[0] == (entries@[i as int].0@, entries@[i as int].1@));
        }
        assert(pos_of(rest, k@) == 0);
    }
    if i < entries.len() && str_eq(entries[i].0.as_str(), k) {
        let _old = entries.remove(i);
        entries.insert(i, (k.to_owned(), v.to_owned()));
        assert(pair_views(entries@) =~= pv.update(i as int, (k@, v@)));
    } else {
        entries.insert(i, (k.to_owned(), v.to_owned()));
        assert(pair_views(entries@) =~= pv.insert(i as int, (k@, v@)));
    }
}

/// The query parameters sorted by name (see [`sorted_pairs`]).
pub fn sorted_params(params: &[(String, String)]) -> (r: Vec<(String, String)>)
    ensures
        pair_views(r@) == sorted_pairs(pair_views(params@)),
        keys_ascending(pair_views(r@)),
{
    proof {
        crate::laws::lemma_sorted_pairs(pair_views(params@));
    }
    let mut r: Vec<(String, String)> = Vec::new();
    let ghost pv = pair_views(params@);
    let mut i: usize = 0;
    assert(pv.subrange(0, 0) =~= Seq::<(Seq<char>, Seq<char>)>::empty());
    assert(pair_views(r@) =~= Seq::<(Seq<char>, Seq<char>)>::empty());
    while i < params.len()
        invariant
            i <= params@.len(),
            pv == pair_views(params@),
            pair_views(r@) == sorted_pairs(pv.subrange(0, i as int)),
        decreases params@.len() - i,
    {
        assert(pv.subrange(0, i + 1).drop_last() =~= pv.subrange(0, i as int));
        assert(pv.subrange(0, i + 1).last() == (params@[i as int].0@, params@[i as int].1@));
        map_put(&mut r, params[i].0.as_str(), params[i].1.as_str());
        i = i + 1;
    }
    assert(pv.subrange(0, params@.len() as int) =~= pv);
    r
}

/// The date class of a key: today's date for entries that live until
/// midnight, empty otherwise.
pub open spec fn ttl_class_of(hint: TtlHint, today: Seq<char>) -> Seq<char> {
    match hint {
        TtlHint::UntilMidnight => today,
        _ => Seq::empty(),
    }
}

/// The cache key of a GET request. `today` is the current UTC date
/// (`YYYY-MM-DD`); it separates entries that live until midnight.
pub fn build_cache_key(base_url: &str, path: &str, params: &[(String, String)], ttl_hint: TtlHint, today: &str) -> (r: String)
    ensures
        r@ == key_spec(base_url@, "GET"@, path@, sorted_pairs(pair_views(params@)), ttl_class_of(ttl_hint, today@)),
{
    let sorted = sorted_params(params);
    let class = match ttl_hint {
        TtlHint::UntilMidnight => today,
        _ => "",
    };
    proof {
        reveal_strlit("");
    }
    key(base_url, "GET", path, sorted.as_slice(), class)
}

// ---------------------------------------------------------------------------
// Retries.

/// The ceiling of the randomized wait before attempt `attempt + 1`:
/// 500 ms doubled per attempt, at most 5 s.
pub open spec fn backoff_cap(attempt: u32) -> int {
    let grown = BASE_BACKOFF_MS as int * pow2(attempt as nat);
    if grown < MAX_BACKOFF_MS as int { grown } else { MAX_BACKOFF_MS as int }
}

pub open spec fn pow2(n: nat) -> int
    decreases n,
{
    if n == 0 { 1 } else { 2 * pow2((n - 1) as nat) }
}

proof fn lemma_pow2_pos(n: nat)
    ensures
        pow2(n) >= 1,
    decreases n,
{
    if n > 0 {
        lemma_pow2_pos((n - 1) as nat);
    }
}

pub fn backoff_cap_ms(attempt: u32) -> (r: u64)
    ensures
        r == backoff_cap(attempt),
{
    let mut grown: u64 = BASE_BACKOFF_MS;
    let mut i: u32 = 0;
    while i < attempt && grown < MAX_BACKOFF_MS
        invariant
            i <= attempt,
            grown == BASE_BACKOFF_MS * pow2(i as nat),
            grown <= 2 * MAX_BACKOFF_MS,
        decreases attempt - i,
    {
        grown = grown * 2;
        i = i + 1;
    }
    proof {
        if i < attempt {
            // grown already reached the ceiling; further doubling keeps it there
            lemma_pow2_grows(i as nat, attempt as nat);
        }
    }
    if grown < MAX_BACKOFF_MS { grown } else { MAX_BACKOFF_MS }
}

proof fn lemma_pow2_grows(a: nat, b: nat)
    requires
        a <= b,
    ensures
        pow2(a) <= pow2(b),
    decreases b - a,
{
    if a < b {
        lemma_pow2_grows(a, (b - 1) as nat);
        lemma_pow2_pos((b - 1) as nat);
    }
}

/// `rand::rng().random_range(0..=cap)`: a random number in `0..=cap`.
#[verifier::external_body]
fn random_up_to(cap: u64) -> (r: u64)
    ensures
        r <= cap,
{
    rand::Rng::random_range(&mut rand::rng(), 0..=cap)
}


/// The wait before the next attempt: the server's `Retry-After` seconds when
/// given, otherwise a random number of milliseconds up to [`backoff_cap`].
pub fn backoff(attempt: u32, retry_after: Option<u64>) -> (r: TimeSpan)
    ensures
        r.wf(),
        match retry_after {
            Some(secs) => r == (TimeSpan { secs, nanos: 0 }),
            None => r.total_nanos() <= backoff_cap(attempt) * 1_000_000 && r.total_nanos() % 1_000_000 == 0,
        },
{
    match retry_after {
        Some(secs) => TimeSpan::from_secs(secs),
        None => {
            let cap = backoff_cap_ms(attempt);
            let ms = random_up_to(cap);
            let r = TimeSpan::from_millis(ms);
            assert(r.total_nanos() == ms * 1_000_000) by (nonlinear_arith)
                requires r.secs == ms / 1000, r.nanos == (ms % 1000) * 1_000_000, r.total_nanos() == r.secs * 1_000_000_000 + r.nanos;
            assert(r.total_nanos() <= cap * 1_000_000) by (nonlinear_arith)
                requires r.total_nanos() == ms * 1_000_000, ms <= cap;
            assert(r.total_nanos() % 1_000_000 == 0) by (nonlinear_arith)
                requires r.total_nanos() == ms * 1_000_000;
            r
        },
    }
}

/// What one attempt's outcome leads to.
#[derive(Debug)]
pub enum RetryStep {
    /// Stop with this result.
    Finish(Result<Json>),
    /// Wait, then try again; `last` is the error to report if no attempt is left.
    Wait { wait: TimeSpan, last: Error },
}

/// Whether attempt number `attempt` (from 0) ends the retries with this
/// outcome: a success, an error that is not retried, or any outcome of the
/// last attempt allowed.
pub open spec fn finishes_at(attempt: int, outcome: Result<Json>) -> bool {
    match outcome {
        Ok(_) => true,
        Err(e) => !e@.kind.is_retryable() || attempt + 1 >= MAX_ATTEMPTS,
    }
}

/// The number of attempts made when successive attempts have these
/// outcomes, counting on from attempt number `attempt`.
pub open spec fn attempts_from(outcomes: Seq<Result<Json>>, attempt: nat) -> nat
    decreases MAX_ATTEMPTS - attempt,
{
    if attempt + 1 >= MAX_ATTEMPTS || finishes_at(attempt as int, outcomes[attempt as int]) {
        attempt + 1
    } else {
        attempts_from(outcomes, attempt + 1)
    }
}

/// The decision after attempt number `attempt` (from 0): a success, a
/// non-retryable error, or a failure of the last attempt finishes; a
/// retryable error of an earlier attempt waits for the backoff, cut to the
/// time left before the deadline.
pub fn retry_step(attempt: u32, outcome: Result<Json>, remaining: TimeSpan) -> (r: RetryStep)
    requires
        attempt < MAX_ATTEMPTS,
    ensures
        r is Finish <==> finishes_at(attempt as int, outcome),
        match outcome {
            Ok(v) => r is Finish && r->Finish_0 is Ok && r->Finish_0->Ok_0@ == v@,
            Err(e) => if !e@.kind.is_retryable() || attempt + 1 == MAX_ATTEMPTS {
                r is Finish && r->Finish_0 is Err && r->Finish_0->Err_0@ == e@
            } else {
                r is Wait && r->last@ == e@ && r->wait.total_nanos() <= remaining.total_nanos()
                    && (r->wait == remaining || e@.retry_after_seconds is Some || r->wait.total_nanos() <= backoff_cap(attempt) * 1_000_000)
                    && (match e@.retry_after_seconds {
                        Some(s) => r->wait == remaining || r->wait == (TimeSpan { secs: s, nanos: 0 }),
                        None => true,
                    })
            },
        },
{
    match outcome {
        Ok(v) => RetryStep::Finish(Ok(v)),
        Err(e) => {
            if !e.is_retryable_transport() || attempt + 1 == MAX_ATTEMPTS {
                return RetryStep::Finish(Err(e));
            }
            let w = backoff(attempt, e.retry_after_seconds());
            let wait = if w.secs < remaining.secs || (w.secs == remaining.secs && w.nanos <= remaining.nanos) {
                w
            } else {
                remaining
            };
            assert(wait.total_nanos() <= remaining.total_nanos()) by (nonlinear_arith)
                requires
                    wait == w || wait == remaining,
                    wait == w ==> (w.secs < remaining.secs || (w.secs == remaining.secs && w.nanos <= remaining.nanos)),
                    w.nanos < 1_000_000_000,
                    wait.total_nanos() == wait.secs * 1_000_000_000 + wait.nanos,
                    remaining.total_nanos() == remaining.secs * 1_000_000_000 + remaining.nanos,
                    w.total_nanos() == w.secs * 1_000_000_000 + w.nanos;
            RetryStep::Wait { wait, last: e }
        },
    }
}

/// The error when the overall deadline passes before an attempt.
pub fn deadline_exceeded() -> (r: Error)
    ensures
        r@.kind == ErrorKind::Timeout,
        r@.message == "deadline exceeded"@,
{
    Error::new(ErrorKind::Timeout, "deadline exceeded")
}

// ---------------------------------------------------------------------------
// Cache use.

/// Whether the cache is read, and with what lifetime a response is written.
#[derive(Debug)]
pub struct CachePlan {
    pub read: bool,
    pub write: Option<Ttl>,
}

/// With a cache at hand and the mode not `Bypass`: read in `Default` mode,
/// write whenever the hint gives a lifetime.
pub fn cache_plan(mode: CacheMode, has_cache: bool, ttl_hint: TtlHint) -> (r: CachePlan)
    ensures
        r.read == (has_cache && mode == CacheMode::Default),
        r.write == if has_cache && mode != CacheMode::Bypass { ttl_hint.cache_ttl() } else { None::<Ttl> },
{
    let used = has_cache && mode != CacheMode::Bypass;
    CachePlan {
        read: used && mode == CacheMode::Default,
        write: if used { ttl_hint.to_cache_ttl() } else { None },
    }
}

// ---------------------------------------------------------------------------
// HTTP failures.

/// `String::from_utf8_lossy(bytes)`: the text of the bytes, invalid sequences
/// replaced by U+FFFD.
pub uninterp spec fn lossy_text(bytes: Seq<u8>) -> Seq<char>;

/// `String::from_utf8_lossy`: valid UTF-8 is decoded as is.
#[verifier::external_body]
fn utf8_lossy(bytes: &[u8]) -> (r: String)
    ensures
        r@ == lossy_text(bytes@),
        valid_utf8(bytes@) ==> r@ == decode_utf8(bytes@),
{
    String::from_utf8_lossy(bytes).into_owned()
}

/// The first 200 characters of the body's text.
pub open spec fn snippet(body: Seq<u8>) -> Seq<char> {
    let t = lossy_text(body);
    if t.len() <= 200 { t } else { t.subrange(0, 200) }
}

fn body_snippet(body: &[u8]) -> (r: String)
    ensures
        r@ == snippet(body@),
{
    let t = utf8_lossy(body);
    let v = chars_of(t.as_str());
    let n: usize = if v.len() <= 200 { v.len() } else { 200 };
    let r = string_of(&v, 0, n);
    assert(v@.subrange(0, v@.len() as int) =~= v@);
    r
}

/// The `error_code` / `error_description` string members of a parsed body.
pub open spec fn member_str(v: Option<JsonV>, k: Seq<char>) -> Seq<char> {
    match v {
        Some(j) => match j.get(k) {
            Some(x) => match x.as_str() {
                Some(s) => s,
                None => Seq::empty(),
            },
            None => Seq::empty(),
        },
        None => Seq::empty(),
    }
}

pub open spec fn opt_json(o: Option<Json>) -> Option<JsonV> {
    match o {
        Some(j) => Some(j@),
        None => None,
    }
}

/// A 400 response. The API describes it as `{"error_code", "error_description"}`;
/// both are kept as upstream metadata and the description is the message.
/// Without a code (or a JSON body: `parsed` is the body parsed as JSON, if it
/// is JSON), the message is the first 200 characters of the body.
pub open spec fn validation_400(body: Seq<u8>, parsed: Option<JsonV>) -> ErrorV {
    let code = member_str(parsed, "error_code"@);
    let desc = member_str(parsed, "error_description"@);
    if code.len() == 0 {
        ErrorV { kind: ErrorKind::Validation, message: snippet(body), upstream_code: None, upstream_message: None, retry_after_seconds: None }
    } else {
        ErrorV { kind: ErrorKind::Validation, message: desc, upstream_code: Some(code), upstream_message: Some(desc), retry_after_seconds: None }
    }
}

pub fn map_validation_400(body: &[u8], parsed: &Option<Json>) -> (r: Error)
    ensures
        r@ == validation_400(body@, opt_json(*parsed)),
{
    let v = match parsed {
        Some(v) => v,
        None => {
            let s = body_snippet(body);
            return Error::new(ErrorKind::Validation, s.as_str());
        },
    };
    let code: &str = match v.get("error_code") {
        Some(c) => match c.as_str() {
            Some(s) => s,
            None => "",
        },
        None => "",
    };
    let desc: &str = match v.get("error_description") {
        Some(c) => match c.as_str() {
            Some(s) => s,
            None => "",
        },
        None => "",
    };
    proof {
        reveal_strlit("");
    }
    if code.unicode_len() == 0 {
        let s = body_snippet(body);
        return Error::new(ErrorKind::Validation, s.as_str());
    }
    let r = Error::new(ErrorKind::Validation, desc).with_upstream(code, desc);
    assert(code@ == member_str(opt_json(*parsed), "error_code"@));
    assert(desc@ == member_str(opt_json(*parsed), "error_description"@));
    assert(r@.kind == validation_400(body@, opt_json(*parsed)).kind);
    assert(r@.message == validation_400(body@, opt_json(*parsed)).message);
    assert(r@.upstream_code == validation_400(body@, opt_json(*parsed)).upstream_code);
    r
}

/// The error for a non-success HTTP status.
pub open spec fn status_error_kind(status: u16) -> ErrorKind {
    if status == 400 {
        ErrorKind::Validation
    } else if status == 404 {
        ErrorKind::NotFound
    } else if status == 429 {
        ErrorKind::RateLimit
    } else {
        ErrorKind::Server
    }
}

/// 400 → validation (see [`map_validation_400`]); 404 → not found; 429 →
/// rate limit with the `Retry-After` seconds; 5xx → server; any other status
/// → server, marked unexpected.
pub fn map_error_status(status: u16, body: &[u8], parsed: &Option<Json>, retry_after: Option<u64>) -> (r: Error)
    ensures
        r@.kind == status_error_kind(status),
        status == 404 ==> r@.message == "resource not found"@,
        status == 429 ==> r@.message == "API throttled"@ && r@.retry_after_seconds == retry_after,
        status != 429 ==> r@.retry_after_seconds is None,
        status != 400 ==> r@.upstream_code is None && r@.upstream_message is None,
        500 <= status < 600 ==> r@.message == "upstream "@ + dec(status as nat),
        status != 400 && status != 404 && status != 429 && !(500 <= status < 600) ==> r@.message
            == "upstream "@ + dec(status as nat) + " (unexpected)"@,
        status == 400 ==> r@ == validation_400(body@, opt_json(*parsed)),
{
    if status == 400 {
        map_validation_400(body, parsed)
    } else if status == 404 {
        Error::new(ErrorKind::NotFound, "resource not found")
    } else if status == 429 {
        let e = Error::new(ErrorKind::RateLimit, "API throttled");
        match retry_after {
            Some(secs) => e.with_retry_after(secs),
            None => e,
        }
    } else if 500 <= status && status < 600 {
        let n = u64_text(status as u64);
        let m = cat2("upstream ", n.as_str());
        Error::new(ErrorKind::Server, m.as_str())
    } else {
        let n = u64_text(status as u64);
        let m = cat3("upstream ", n.as_str(), " (unexpected)");
        Error::new(ErrorKind::Server, m.as_str())
    }
}

// ---------------------------------------------------------------------------
// One attempt.

/// The local limiter's rate: the configured requests per second, at least one.
pub fn limiter_rate(rate_limit_per_sec: u32) -> (r: u32)
    ensures
        r == if rate_limit_per_sec == 0 { 1 } else { rate_limit_per_sec },
        r >= 1,
{
    if rate_limit_per_sec == 0 { 1 } else { rate_limit_per_sec }
}

/// The `Retry-After` header's value in whole seconds, when it is one.
pub fn retry_after_secs(header: Option<&str>) -> (r: Option<u64>)
    ensures
        r == match header {
            Some(h) => match parse_int_spec(h@, false, 0, u64::MAX as int) {
                Some(n) => Some(n as u64),
                None => None::<u64>,
            },
            None => None::<u64>,
        },
{
    match header {
        Some(h) => parse_u64(h),
        None => None,
    }
}

/// A request that got no response: a timeout, or another transport failure.
pub fn transport_error(is_timeout: bool, text: &str) -> (r: Error)
    ensures
        r@.kind == if is_timeout { ErrorKind::Timeout } else { ErrorKind::Network },
        r@.message == text@,
        r@.upstream_code is None,
        r@.retry_after_seconds is None,
{
    if is_timeout {
        Error::new(ErrorKind::Timeout, text)
    } else {
        Error::new(ErrorKind::Network, text)
    }
}

/// The result of one attempt that got a response: the body parsed as JSON
/// on success (`parsed` is the parse, or the parser's error text), a parse
/// error when a successful body is not JSON, else the status's error.
pub fn attempt_outcome(
    status: u16,
    body: &[u8],
    parsed: core::result::Result<Json, String>,
    retry_after: Option<u64>,
) -> (r: Result<Json>)
    ensures
        200 <= status < 300 ==> match parsed {
            Ok(v) => r is Ok && r->Ok_0@ == v@,
            Err(e) => r is Err && r->Err_0@.kind == ErrorKind::Parse
                && r->Err_0@.message == "upstream 2xx body did not deserialize: "@ + e@
                && r->Err_0@.retry_after_seconds is None,
        },
        !(200 <= status < 300) ==> r is Err && {
            let e = r->Err_0@;
            &&& e.kind == status_error_kind(status)
            &&& status == 400 ==> e == validation_400(body@, match parsed { Ok(v) => Some(v@), Err(_) => None })
            &&& status == 404 ==> e.message == "resource not found"@
            &&& status == 429 ==> e.message == "API throttled"@ && e.retry_after_seconds == retry_after
        },
{
    if 200 <= status && status < 300 {
        return match parsed {
            Ok(v) => Ok(v),
            Err(e) => {
                let m = cat2("upstream 2xx body did not deserialize: ", e.as_str());
                Err(Error::new(ErrorKind::Parse, m.as_str()))
            },
        };
    }
    let p: Option<Json> = match parsed {
        Ok(v) => Some(v),
        Err(_) => None,
    };
    Err(map_error_status(status, body, &p, retry_after))
}

} // verus!
