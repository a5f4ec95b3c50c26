//! Cache keys and lifetimes for upstream GET responses.
//!
//! Keys are the SHA-256 of `(canonical base URL, method, path, sorted query,
//! ttl class)`, in lower-case hexadecimal.
use vstd::prelude::*;
use crate::span::TimeSpan;
use vstd::utf8::encode_utf8;
use crate::text::{strip_end, strip_end_seq, string_views};
use crate::ordered::keys_ascending;

verus! {

/// How long a cache entry lives.
#[derive(Debug, Clone, Copy, PartialEq, Eq, Structural)]
pub enum Ttl {
    Fixed(TimeSpan),
    UntilMidnight,
    Never,
}

/// What `url::Url::parse(s)` serializes to (`Url::as_str`), or the text of
/// the parse error when `s` is not a URL.
pub uninterp spec fn url_serialization(s: Seq<char>) -> core::result::Result<Seq<char>, Seq<char>>;

/// `url::Url::parse(s)`: on success `Url::as_str` of the result, on failure
/// the error's `Display` text.
#[verifier::external_body]
pub(crate) fn url_parse_serialize(s: &str) -> (r: core::result::Result<String, String>)
    ensures
        match r {
            Ok(t) => url_serialization(s@) == Ok::<Seq<char>, Seq<char>>(t@),
            Err(e) => url_serialization(s@) == Err::<Seq<char>, Seq<char>>(e@),
        },
{
    match url::Url::parse(s) {
        Ok(u) => Ok(u.as_str().to_owned()),
        Err(e) => Err(e.to_string()),
    }
}

/// The canonical form of a base URL: its URL serialization when it parses
/// (which lower-cases the host), with trailing slashes removed.
pub open spec fn canonical_base(s: Seq<char>) -> Seq<char> {
    match url_serialization(s) {
        Ok(t) => strip_end_seq(t, '/'),
        Err(_) => strip_end_seq(s, '/'),
    }
}

pub fn canonical_base_url(s: &str) -> (r: String)
    ensures
        r@ == canonical_base(s@),
{
    match url_parse_serialize(s) {
        Ok(t) => strip_end(t.as_str(), '/'),
        Err(_) => strip_end(s, '/'),
    }
}

/// Whether a byte is left as is by percent-encoding: ASCII alphanumerics and
/// `-`, `_`, `.`, `~`.
pub open spec fn unreserved(b: u8) -> bool {
    (48 <= b <= 57) || (65 <= b <= 90) || (97 <= b <= 122) || b == 45 || b == 95 || b == 46 || b == 126
}

pub open spec fn upper_hex(d: int) -> char {
    if d < 10 { (48 + d) as char } else { (55 + d) as char }
}

/// Percent-encoding of bytes: unreserved bytes as themselves, every other byte
/// as `%XX` (upper-case hex).
pub open spec fn pct_encode(bytes: Seq<u8>) -> Seq<char>
    decreases bytes.len(),
{
    if bytes.len() == 0 {
        Seq::empty()
    } else {
        pct_encode(bytes.drop_last()) + (if unreserved(bytes.last()) {
            seq![bytes.last() as char]
        } else {
            seq!['%', upper_hex(bytes.last() as int / 16), upper_hex(bytes.last() as int % 16)]
        })
    }
}

/// `urlencoding::encode`: percent-encodes the UTF-8 bytes of `s`, every byte
/// but ASCII alphanumerics and `-`, `_`, `.`, `~` (as the crate documents).
#[verifier::external_body]
fn url_encode(s: &str) -> (r: String)
    ensures
        r@ == pct_encode(encode_utf8(s@)),
{
    urlencoding::encode(s).into_owned()
}

/// The SHA-256 digest of a byte string.
pub uninterp spec fn sha256(data: Seq<u8>) -> Seq<u8>;

/// `sha2::Sha256::digest`: the 32-byte SHA-256 digest of `data`.
#[verifier::external_body]
fn sha256_digest(data: &[u8]) -> (r: Vec<u8>)
    ensures
        r@ == sha256(data@),
        r@.len() == 32,
{
    <sha2::Sha256 as sha2::Digest>::digest(data).to_vec()
}

pub open spec fn lower_hex(d: int) -> char {
    if d < 10 { (48 + d) as char } else { (87 + d) as char }
}

/// Two lower-case hex digits per byte.
pub open spec fn hex_of(bytes: Seq<u8>) -> Seq<char>
    decreases bytes.len(),
{
    if bytes.len() == 0 {
        Seq::empty()
    } else {
        hex_of(bytes.drop_last()) + seq![lower_hex(bytes.last() as int / 16), lower_hex(bytes.last() as int % 16)]
    }
}

pub proof fn lemma_hex_of_len(bytes: Seq<u8>)
    ensures
        hex_of(bytes).len() == 2 * bytes.len(),
        forall|i: int| 0 <= i < hex_of(bytes).len() ==> {
            let c = #[trigger] hex_of(bytes)[i];
            ('0' <= c && c <= '9') || ('a' <= c && c <= 'f')
        },
    decreases bytes.len(),
{
    if bytes.len() > 0 {
        lemma_hex_of_len(bytes.drop_last());
        let h = hex_of(bytes);
        let p = hex_of(bytes.drop_last());
        assert forall|i: int| 0 <= i < h.len() implies {
            let c = #[trigger] h[i];
            ('0' <= c && c <= '9') || ('a' <= c && c <= 'f')
        } by {
            if i < p.len() {
                assert(h[i] == p[i]);
            }
        }
    }
}

fn lower_hex_char(d: u8) -> (c: char)
    requires
        d < 16,
    ensures
        c == lower_hex(d as int),
{
    match d {
        0 => '0', 1 => '1', 2 => '2', 3 => '3', 4 => '4', 5 => '5', 6 => '6', 7 => '7',
        8 => '8', 9 => '9', 10 => 'a', 11 => 'b', 12 => 'c', 13 => 'd', 14 => 'e', _ => 'f',
    }
}

fn hex_string(bytes: &Vec<u8>) -> (r: String)
    ensures
        r@ == hex_of(bytes@),
{
    let mut r = String::new();
    let mut i: usize = 0;
    while i < bytes.len()
        invariant
            i <= bytes@.len(),
            r@ == hex_of(bytes@.subrange(0, i as int)),
        decreases bytes@.len() - i,
    {
        assert(bytes@.subrange(0, i + 1).drop_last() =~= bytes@.subrange(0, i as int));
        let b = bytes[i];
        r.push(lower_hex_char(b / 16));
        r.push(lower_hex_char(b % 16));
        i = i + 1;
        assert(r@ =~= hex_of(bytes@.subrange(0, i as int)));
    }
    assert(bytes@.subrange(0, bytes@.len() as int) =~= bytes@);
    r
}

/// The query part of a key: `enc(k)=enc(v)` pairs joined by `&`.
pub open spec fn query_of(params: Seq<(Seq<char>, Seq<char>)>) -> Seq<char>
    decreases params.len(),
{
    if params.len() == 0 {
        Seq::empty()
    } else {
        let prev = query_of(params.drop_last());
        let (k, v) = params.last();
        (if params.len() > 1 { prev + seq!['&'] } else { prev }) + pct_encode(encode_utf8(k)) + seq!['=']
            + pct_encode(encode_utf8(v))
    }
}

pub open spec fn pair_views(params: Seq<(String, String)>) -> Seq<(Seq<char>, Seq<char>)> {
    Seq::new(params.len(), |i: int| (params[i].0@, params[i].1@))
}

/// The bytes that are hashed for a key: the five parts, each followed by a NUL
/// byte but the last.
pub open spec fn key_material(base: Seq<char>, method: Seq<char>, path: Seq<char>, params: Seq<(Seq<char>, Seq<char>)>, ttl_class: Seq<char>) -> Seq<u8> {
    encode_utf8(canonical_base(base)) + seq![0u8] + encode_utf8(method) + seq![0u8] + encode_utf8(path) + seq![0u8]
        + encode_utf8(query_of(params)) + seq![0u8] + encode_utf8(ttl_class)
}

/// The key: lower-case hex of the SHA-256 of [`key_material`].
pub open spec fn key_spec(base: Seq<char>, method: Seq<char>, path: Seq<char>, params: Seq<(Seq<char>, Seq<char>)>, ttl_class: Seq<char>) -> Seq<char> {
    hex_of(sha256(key_material(base, method, path, params, ttl_class)))
}

fn push_bytes(out: &mut Vec<u8>, s: &str)
    ensures
        final(out)@ == old(out)@ + encode_utf8(s@),
{
    let b = s.as_bytes();
    let ghost start = out@;
    let mut i: usize = 0;
    while i < b.len()
        invariant
            i <= b@.len(),
            b@ == encode_utf8(s@),
            out@ == start + b@.subrange(0, i as int),
        decreases b@.len() - i,
    {
        out.push(b[i]);
        i = i + 1;
        assert(out@ =~= start + b@.subrange(0, i as int));
    }
    assert(b@.subrange(0, b@.len() as int) =~= b@);
}

/// Derives a cache key. `params` is a map from names to values: names
/// strictly ascending, each once (as [`crate::client::sorted_params`] gives
/// them); `ttl_class` is empty for fixed lifetimes, or a date such as
/// `2026-04-29` for entries that live until midnight.
pub fn key(base_url: &str, method: &str, path: &str, params: &[(String, String)], ttl_class: &str) -> (r: String)
    requires
        keys_ascending(pair_views(params@)),
    ensures
        r@ == key_spec(base_url@, method@, path@, pair_views(params@), ttl_class@),
        r@.len() == 64,
        forall|i: int| 0 <= i < 64 ==> {
            let c = #[trigger] r@[i];
            ('0' <= c && c <= '9') || ('a' <= c && c <= 'f')
        },
{
    let canonical = canonical_base_url(base_url);
    let mut q = String::new();
    let mut i: usize = 0;
    let ghost pv = pair_views(params@);
    assert(pv.subrange(0, 0) =~= Seq::<(Seq<char>, Seq<char>)>::empty());
    while i < params.len()
        invariant
            i <= params@.len(),
            pv == pair_views(params@),
            q@ == query_of(pv.subrange(0, i as int)),
        decreases params@.len() - i,
    {
        assert(pv.subrange(0, i + 1).drop_last() =~= pv.subrange(0, i as int));
        assert(pv.subrange(0, i + 1).last() == (params@[i as int].0@, params@[i as int].1@));
        if i > 0 {
            q.push('&');
        }
        let k = url_encode(params[i].0.as_str());
        let v = url_encode(params[i].1.as_str());
        q.append(k.as_str());
        q.push('=');
        q.append(v.as_str());
        i = i + 1;
        assert(q@ =~= query_of(pv.subrange(0, i as int)));
    }
    assert(pv.subrange(0, params@.len() as int) =~= pv);
    let mut data: Vec<u8> = Vec::new();
    push_bytes(&mut data, canonical.as_str());
    data.push(0u8);
    push_bytes(&mut data, method);
    data.push(0u8);
    push_bytes(&mut data, path);
    data.push(0u8);
    push_bytes(&mut data, q.as_str());
    data.push(0u8);
    push_bytes(&mut data, ttl_class);
    assert(data@ =~= key_material(base_url@, method@, path@, pv, ttl_class@));
    let digest = sha256_digest(data.as_slice());
    proof {
        lemma_hex_of_len(digest@);
    }
    hex_string(&digest)
}

// ---------------------------------------------------------------------------
// Lifetimes in time.

/// Milliseconds in a day.
pub const DAY_MS: i64 = 86_400_000;

/// The first UTC midnight after the instant `now_ms` (milliseconds since the
/// Unix epoch).
pub open spec fn next_midnight(now_ms: int) -> int {
    (now_ms / DAY_MS as int + 1) * DAY_MS as int
}

pub fn next_utc_midnight_ms(now_ms: i64) -> (r: i64)
    requires
        0 <= now_ms <= i64::MAX - DAY_MS,
    ensures
        r == next_midnight(now_ms as int),
        now_ms < r <= now_ms + DAY_MS,
        r as int % DAY_MS as int == 0,
{
    let d = now_ms / DAY_MS;
    assert(now_ms < (d + 1) * DAY_MS <= now_ms + DAY_MS) by (nonlinear_arith)
        requires d == now_ms as int / 86_400_000int, now_ms >= 0, DAY_MS == 86_400_000;
    assert(((d + 1) * 86_400_000int) % 86_400_000int == 0) by (nonlinear_arith);
    (d + 1) * DAY_MS
}

/// The instant (milliseconds since the epoch) at which an entry written at
/// `now_ms` expires: a fixed lifetime later (capped at the largest instant),
/// at the next UTC midnight, or never.
pub open spec fn expiry(ttl: Ttl, now_ms: int) -> Option<int> {
    match ttl {
        Ttl::Fixed(d) => {
            let t = now_ms + d.secs * 1000 + d.nanos / 1_000_000;
            Some(if t > i64::MAX { i64::MAX as int } else { t })
        },
        Ttl::UntilMidnight => Some(next_midnight(now_ms)),
        Ttl::Never => None,
    }
}

impl Ttl {
    pub fn expires_at_ms(self, now_ms: i64) -> (r: Option<i64>)
        requires
            0 <= now_ms <= i64::MAX - DAY_MS,
        ensures
            match r {
                Some(t) => expiry(self, now_ms as int) == Some(t as int),
                None => expiry(self, now_ms as int) is None,
            },
    {
        match self {
            Ttl::Fixed(d) => {
                let ms: u64 = (d.nanos / 1_000_000) as u64;
                let room: u64 = (i64::MAX - now_ms) as u64;
                if d.secs > room / 1000 {
                    assert(now_ms + d.secs * 1000 + d.nanos / 1_000_000 > i64::MAX) by (nonlinear_arith)
                        requires d.secs > room / 1000, room == i64::MAX - now_ms, now_ms >= 0;
                    return Some(i64::MAX);
                }
                let add: u64 = d.secs * 1000;
                if add + ms > room {
                    return Some(i64::MAX);
                }
                Some(now_ms + (add + ms) as i64)
            },
            Ttl::UntilMidnight => Some(next_utc_midnight_ms(now_ms)),
            Ttl::Never => None,
        }
    }
}

/// Whether an entry that expires at `expires_ms` (never, when `None`) is
/// still served at `now_ms`.
pub fn is_fresh(expires_ms: Option<i64>, now_ms: i64) -> (r: bool)
    ensures
        r == match expires_ms {
            Some(t) => now_ms < t,
            None => true,
        },
{
    match expires_ms {
        Some(t) => now_ms < t,
        None => true,
    }
}

} // verus!
