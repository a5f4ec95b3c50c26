//! Properties of the library as a whole: what holds across calls and for
//! every input, stated over the specifications the functions are proved
//! against.
use vstd::prelude::*;
use crate::cache::{canonical_base, key_spec, expiry, next_midnight, Ttl, DAY_MS};
use crate::client::{after_pos, lemma_after_pos, name_sorted, MAX_ATTEMPTS, attempts_from, finishes_at, CacheMode, TtlHint, backoff_cap, base_url_of, pow2, sorted_pairs, ttl_class_of};
use crate::schema_cmd::all_kinds;
use crate::ordered::{find, keys_ascending, lemma_ascending_unique, lemma_put, lemma_find_entry, lemma_find_some, lemma_find_ascending, lemma_seq_lt_total, lemma_seq_lt_transitive, lemma_seq_lt_irreflexive};
use crate::commands::limit_check;
use crate::error::ErrorKind;
use crate::output::{ProjV, envelope, ins, opt_num, path_segments, proj, proj_items, proj_members, projection_of};
use crate::json::obj_lookup;
use crate::ordered::lemma_seq_lt_strict;
use crate::text::{has_at_pos, lemma_pos_of_bound, pos_of, put, seq_lt};
use crate::render::truncated;
use crate::runtime::{TtlOverride, mode_of, ttl_of};
use crate::text::{lower_char, lower_seq, strip_end_seq};
use crate::tty::{Format, chosen_format};
use crate::json::{Json, JsonV};
use crate::error::Result;
use crate::commands::event_records::{year_filtered, year_matches, common_from, common_flags_of, FlagsV, no_flags, with_year, with_place, with_province, event_year_of, after};
use crate::text::{is_prefix, dec, dec_int, set_put, kpos};
use crate::commands::{opt_pair, opt_int_pair};
use crate::commands::event_records::event_plan;
use crate::commands::stats::familynames::{familynames_plan, Args as FamilynamesArgs};
use crate::commands::cache_cmd::{extreme, total_size};
use crate::output::{add_keys, item_keys, observed_fields, Shape};
use crate::runtime::ApiContext;
use crate::json_text::{esc, escaped, quoted, compact, pretty, hex_digit};

verus! {

/// An error exits the process with 2 exactly when it is a validation error,
/// and with 1 otherwise.
pub proof fn lemma_exit_codes(k: ErrorKind)
    ensures
        k.code() == 2 <==> k == ErrorKind::Validation,
        k != ErrorKind::Validation ==> k.code() == 1,
{
}

/// The retryable errors are exactly throttling, timeouts, transport and
/// server failures; a validation error is never retried.
pub proof fn lemma_retryable_kinds(k: ErrorKind)
    ensures
        k.is_retryable() <==> (k == ErrorKind::RateLimit || k == ErrorKind::Timeout || k == ErrorKind::Network
            || k == ErrorKind::Server),
        k.is_retryable() ==> k.code() == 1,
{
}

/// Format names are read case-insensitively: a name and its lower-case
/// form name the same format.
pub proof fn lemma_format_names_ignore_case(s: Seq<char>)
    ensures
        Format::named(lower_seq(s)) == Format::named(s),
{
    assert(lower_seq(lower_seq(s)) =~= lower_seq(s)) by {
        assert forall|i: int| 0 <= i < s.len() implies lower_char(lower_char(s[i])) == lower_char(s[i]) by {
            let c = s[i];
            if 'A' <= c && c <= 'Z' {
                assert(!('A' <= lower_char(c) && lower_char(c) <= 'Z'));
            }
        }
    }
}

/// An explicit `--output` always decides the format, whatever the
/// environment and the terminal.
pub proof fn lemma_explicit_format_wins(f: Format, env: Option<Seq<char>>, tty: bool)
    ensures
        chosen_format(Some(f), env, tty) == f,
{
}

/// Truncation keeps text that fits, and otherwise cuts it to exactly `max`
/// characters ending in `…`, keeping the start.
pub proof fn lemma_truncation(s: Seq<char>, max: nat)
    ensures
        s.len() <= max ==> truncated(s, max) == s,
        s.len() > max && max >= 1 ==> {
            let t = truncated(s, max);
            &&& t.len() == max
            &&& t.last() == '…'
            &&& t.subrange(0, max - 1) == s.subrange(0, max - 1)
        },
{
    if s.len() > max && max >= 1 {
        let t = truncated(s, max);
        assert(t.subrange(0, max - 1) =~= s.subrange(0, max - 1));
    }
}

proof fn lemma_strip_end_done(s: Seq<char>, c: char)
    ensures
        strip_end_seq(strip_end_seq(s, c), c) == strip_end_seq(s, c),
        strip_end_seq(s, c).len() == 0 || strip_end_seq(s, c).last() != c,
    decreases s.len(),
{
    if s.len() > 0 && s.last() == c {
        lemma_strip_end_done(s.drop_last(), c);
    }
}

/// The resolved API base never ends in `/`, and resolving it again (as an
/// explicit base) gives it back unchanged.
pub proof fn lemma_base_url_normal(explicit: Option<Seq<char>>, env: Option<Seq<char>>, other_env: Option<Seq<char>>)
    ensures
        base_url_of(Some(base_url_of(explicit, env)), other_env) == base_url_of(explicit, env),
        base_url_of(explicit, env).len() == 0 || base_url_of(explicit, env).last() != '/',
{
    let raw = match explicit {
        Some(e) => e,
        None => match env {
            Some(v) => v,
            None => crate::client::DEFAULT_BASE_URL@,
        },
    };
    lemma_strip_end_done(raw, '/');
}

proof fn lemma_pow2_monotone(a: nat, b: nat)
    requires
        a <= b,
    ensures
        1 <= pow2(a) <= pow2(b),
    decreases b,
{
    if b > 0 {
        if a < b {
            lemma_pow2_monotone(a, (b - 1) as nat);
        } else {
            lemma_pow2_monotone((a - 1) as nat, (b - 1) as nat);
        }
    }
}

/// The ceiling of the randomised wait starts at 500 ms, never decreases from
/// one attempt to the next, and never exceeds 5 s.
pub proof fn lemma_backoff_ceiling(a: u32, b: u32)
    requires
        a <= b,
    ensures
        500 <= backoff_cap(a) <= backoff_cap(b) <= 5000,
        backoff_cap(0) == 500,
{
    lemma_pow2_monotone(a as nat, b as nat);
    lemma_pow2_monotone(0, a as nat);
    assert(500 * pow2(a as nat) <= 500 * pow2(b as nat)) by (nonlinear_arith)
        requires pow2(a as nat) <= pow2(b as nat);
    assert(500 <= 500 * pow2(a as nat)) by (nonlinear_arith)
        requires 1 <= pow2(a as nat);
    assert(pow2(0) == 1);
}

/// `--cache-ttl 0` (or a zero duration) turns caching off: the cache is
/// bypassed whatever the other flags say, and the lifetime of every request
/// is "not cached", so nothing is written.
pub proof fn lemma_disabled_ttl_caches_nothing(no_cache: bool, refresh: bool, default: TtlHint)
    ensures
        mode_of(no_cache, refresh, Some(TtlOverride::Disabled)) == CacheMode::Bypass,
        ttl_of(Some(TtlOverride::Disabled), default).cache_ttl() is None,
{
}

/// `--cache-ttl inf` makes every response live forever, and a fixed override
/// replaces the endpoint's own lifetime; without an override the endpoint's
/// lifetime stands.
pub proof fn lemma_ttl_override(default: TtlHint, d: crate::span::TimeSpan)
    ensures
        ttl_of(Some(TtlOverride::Forever), default) == TtlHint::Never,
        ttl_of(Some(TtlOverride::Fixed(d)), default) == TtlHint::Fixed(d),
        ttl_of(None, default) == default,
{
}

/// A list's envelope reports the number of its items as the total when no
/// total is known.
pub proof fn lemma_envelope_total_defaults_to_count(
    items: Seq<JsonV>,
    limit: Option<u32>,
    offset: Option<u32>,
    paginated: bool,
)
    ensures
        envelope(items, None, limit, offset, paginated).get("total"@) == Some(opt_num(Some(items.len() as u64))),
{
    let e = envelope(items, None, limit, offset, paginated)->Object_0;
    reveal_strlit("items");
    reveal_strlit("limit");
    reveal_strlit("offset");
    reveal_strlit("paginated");
    reveal_strlit("total");
    assert(e[0].0[0] != ("total"@)[0]);
    assert(e[1].0[0] != ("total"@)[0]);
    assert(e[2].0[0] != ("total"@)[0]);
    assert(e[3].0[0] != ("total"@)[0]);
    crate::json::lemma_lookup_skip(e, "total"@, 4);
    assert(e.subrange(4, e.len() as int)[0] == e[4]);
}

/// A page size that is accepted lies between 1 and the maximum, when the
/// default does.
pub proof fn lemma_page_size_in_range(limit: Option<u32>, default: u32, max: u32)
    requires
        1 <= default <= max,
    ensures
        limit_check(limit, default, max) is Ok ==> 1 <= limit_check(limit, default, max)->Ok_0 <= max,
        limit_check(limit, default, max) is Err <==> (limit == Some(0u32) || (limit is Some && limit->0 > max)),
{
}

/// The sorted query is ascending by name, and finds each name with the last
/// value the parameter list gives it.
pub proof fn lemma_sorted_pairs(params: Seq<(Seq<char>, Seq<char>)>)
    ensures
        keys_ascending(sorted_pairs(params)),
        forall|q: Seq<char>| #[trigger] find(sorted_pairs(params), q) == find(params, q),
    decreases params.len(),
{
    if params.len() > 0 {
        let init = params.drop_last();
        lemma_sorted_pairs(init);
        lemma_put(sorted_pairs(init), params.last().0, params.last().1);
        assert forall|q: Seq<char>| #[trigger] find(sorted_pairs(params), q) == find(params, q) by {
            assert(find(sorted_pairs(init), q) == find(init, q));
        }
    }
}

/// Names in non-descending order.
pub open spec fn names_sorted(e: Seq<(Seq<char>, Seq<char>)>) -> bool {
    forall|i: int, j: int| 0 <= i < j < e.len() ==> !seq_lt(#[trigger] e[j].0, #[trigger] e[i].0)
}

/// The query of a built URL keeps every pair given, each as often as it was
/// given, in non-descending order of names.
pub proof fn lemma_name_sorted(params: Seq<(Seq<char>, Seq<char>)>)
    ensures
        name_sorted(params).to_multiset() == params.to_multiset(),
        name_sorted(params).len() == params.len(),
        names_sorted(name_sorted(params)),
    decreases params.len(),
{
    broadcast use vstd::seq_lib::to_multiset_insert, vstd::seq_lib::to_multiset_build;
    if params.len() == 0 {
        assert(name_sorted(params) =~= params);
    } else {
        let init = params.drop_last();
        let e = params.last();
        let prev = name_sorted(init);
        lemma_name_sorted(init);
        lemma_after_pos(prev, e.0);
        let p = after_pos(prev, e.0) as int;
        let r = prev.insert(p, e);
        assert(r == name_sorted(params));
        assert(params =~= init.push(e));
        assert(r.to_multiset() == prev.to_multiset().insert(e));
        assert(params.to_multiset() == init.to_multiset().insert(e));
        assert forall|i: int, j: int| 0 <= i < j < r.len() implies !seq_lt(#[trigger] r[j].0, #[trigger] r[i].0) by {
            if j < p {
                assert(r[i] == prev[i] && r[j] == prev[j]);
            } else if j == p {
                assert(r[i] == prev[i]);
            } else if i < p {
                assert(r[i] == prev[i] && r[j] == prev[j - 1]);
                if seq_lt(prev[j - 1].0, prev[i].0) {
                    assert(!seq_lt(prev[j - 1].0, prev[i].0));
                }
            } else if i == p {
                assert(r[j] == prev[j - 1]);
                if seq_lt(prev[j - 1].0, e.0) {
                    if j - 1 > p {
                        assert(!seq_lt(prev[j - 1].0, prev[p].0));
                        lemma_seq_lt_transitive(prev[j - 1].0, e.0, prev[p].0);
                    } else {
                        lemma_seq_lt_strict(e.0, prev[p].0);
                    }
                }
            } else {
                assert(r[i] == prev[i - 1] && r[j] == prev[j - 1]);
            }
        }
    }
}

/// The cache key of a request does not depend on the order of its query
/// parameters: two parameter lists that give every name the same last value
/// (in particular, two orderings of the same distinct names) sort to the
/// same query, and so give the same key.
pub proof fn lemma_cache_key_ignores_param_order(
    base: Seq<char>,
    path: Seq<char>,
    p1: Seq<(Seq<char>, Seq<char>)>,
    p2: Seq<(Seq<char>, Seq<char>)>,
    hint: TtlHint,
    today: Seq<char>,
)
    requires
        forall|q: Seq<char>| #[trigger] find(p1, q) == find(p2, q),
    ensures
        sorted_pairs(p1) == sorted_pairs(p2),
        key_spec(base, "GET"@, path, sorted_pairs(p1), ttl_class_of(hint, today))
            == key_spec(base, "GET"@, path, sorted_pairs(p2), ttl_class_of(hint, today)),
{
    lemma_sorted_pairs(p1);
    lemma_sorted_pairs(p2);
    assert forall|q: Seq<char>| #[trigger] find(sorted_pairs(p1), q) == find(sorted_pairs(p2), q) by {
        assert(find(p1, q) == find(p2, q));
    }
    lemma_ascending_unique(sorted_pairs(p1), sorted_pairs(p2));
}

/// Swapping two neighbouring parameters with different names leaves every
/// name's last value, and so the cache key, unchanged.
pub proof fn lemma_swap_keeps_values(
    before: Seq<(Seq<char>, Seq<char>)>,
    x: (Seq<char>, Seq<char>),
    y: (Seq<char>, Seq<char>),
    after: Seq<(Seq<char>, Seq<char>)>,
)
    requires
        x.0 != y.0,
    ensures
        forall|q: Seq<char>| #[trigger] find(before.push(x).push(y) + after, q) == find(before.push(y).push(x) + after, q),
    decreases after.len(),
{
    let s1 = before.push(x).push(y) + after;
    let s2 = before.push(y).push(x) + after;
    if after.len() == 0 {
        assert(s1 =~= before.push(x).push(y));
        assert(s2 =~= before.push(y).push(x));
        assert forall|q: Seq<char>| #[trigger] find(s1, q) == find(s2, q) by {
            assert(before.push(x).push(y).drop_last() =~= before.push(x));
            assert(before.push(y).push(x).drop_last() =~= before.push(y));
            assert(before.push(x).drop_last() =~= before);
            assert(before.push(y).drop_last() =~= before);
            assert(find(before.push(x), q) == if x.0 == q { Some(x.1) } else { find(before, q) });
            assert(find(before.push(y), q) == if y.0 == q { Some(y.1) } else { find(before, q) });
            assert(find(before.push(x).push(y), q) == if y.0 == q { Some(y.1) } else { find(before.push(x), q) });
            assert(find(before.push(y).push(x), q) == if x.0 == q { Some(x.1) } else { find(before.push(y), q) });
        }
    } else {
        lemma_swap_keeps_values(before, x, y, after.drop_last());
        assert forall|q: Seq<char>| #[trigger] find(s1, q) == find(s2, q) by {
            assert(s1.drop_last() =~= before.push(x).push(y) + after.drop_last());
            assert(s2.drop_last() =~= before.push(y).push(x) + after.drop_last());
            assert(find(before.push(x).push(y) + after.drop_last(), q) == find(before.push(y).push(x) + after.drop_last(), q));
        }
    }
}

/// Counting on from attempt `a`: the attempts end at one that finishes, no
/// later than the last one allowed, and every attempt before it did not.
proof fn lemma_attempts_from(outcomes: Seq<Result<Json>>, a: nat)
    requires
        a < MAX_ATTEMPTS,
        outcomes.len() >= MAX_ATTEMPTS,
    ensures
        a + 1 <= attempts_from(outcomes, a) <= MAX_ATTEMPTS,
        finishes_at(attempts_from(outcomes, a) - 1, outcomes[attempts_from(outcomes, a) - 1]),
        forall|i: int| a <= i < attempts_from(outcomes, a) - 1 ==> !finishes_at(i, #[trigger] outcomes[i]),
    decreases MAX_ATTEMPTS - a,
{
    if !(a + 1 >= MAX_ATTEMPTS || finishes_at(a as int, outcomes[a as int])) {
        lemma_attempts_from(outcomes, a + 1);
    }
}

/// Retries: fed the outcomes of successive attempts, `retry_step` stops after
/// at least one and at most `MAX_ATTEMPTS` attempts. It stops at the first
/// success or error that is not retried, or at the last attempt allowed, and
/// every attempt before that one failed with a retryable error. (What it
/// reports is that last outcome, by `retry_step`'s own contract.)
pub proof fn lemma_retry_sequence(outcomes: Seq<Result<Json>>)
    requires
        outcomes.len() >= MAX_ATTEMPTS,
    ensures
        1 <= attempts_from(outcomes, 0) <= MAX_ATTEMPTS,
        finishes_at(attempts_from(outcomes, 0) - 1, outcomes[attempts_from(outcomes, 0) - 1]),
        forall|i: int| 0 <= i < attempts_from(outcomes, 0) - 1 ==>
            (#[trigger] outcomes[i]) is Err && outcomes[i]->Err_0@.kind.is_retryable(),
{
    lemma_attempts_from(outcomes, 0);
    assert forall|i: int| 0 <= i < attempts_from(outcomes, 0) - 1 implies
        (#[trigger] outcomes[i]) is Err && outcomes[i]->Err_0@.kind.is_retryable() by {
        assert(!finishes_at(i, outcomes[i]));
    }
}

// ---------------------------------------------------------------------------
// `--fields` projection.

/// A projection tree is well formed when the children of every node have
/// strictly ascending names (as `--fields` paths build them).
pub open spec fn proj_wf(p: ProjV) -> bool
    decreases p,
{
    match p {
        ProjV::Leaf => true,
        ProjV::Tree(t) => keys_ascending(t) && children_wf(t),
    }
}

pub open spec fn children_wf(t: Seq<(Seq<char>, ProjV)>) -> bool
    decreases t,
{
    if t.len() == 0 {
        true
    } else {
        proof {
            assert(decreases_to!(t => t.subrange(0, t.len() - 1)));
            assert(decreases_to!(t => t[t.len() - 1]));
            assert(decreases_to!(t[t.len() - 1] => t[t.len() - 1].1));
        }
        children_wf(t.subrange(0, t.len() - 1)) && proj_wf(t[t.len() - 1].1)
    }
}

proof fn lemma_children_wf(t: Seq<(Seq<char>, ProjV)>)
    ensures
        children_wf(t) <==> forall|i: int| 0 <= i < t.len() ==> proj_wf(#[trigger] t[i].1),
    decreases t.len(),
{
    if t.len() > 0 {
        let u = t.subrange(0, t.len() - 1);
        lemma_children_wf(u);
        assert forall|i: int| 0 <= i < u.len() implies u[i] == t[i] by {}
        if forall|i: int| 0 <= i < t.len() ==> proj_wf(#[trigger] t[i].1) {
            assert forall|i: int| 0 <= i < u.len() implies proj_wf(#[trigger] u[i].1) by {
                assert(u[i] == t[i]);
            }
        }
    }
}

proof fn lemma_proj_items_index(items: Seq<JsonV>, p: ProjV)
    ensures
        proj_items(items, p).len() == items.len(),
        forall|i: int| 0 <= i < items.len() ==> #[trigger] proj_items(items, p)[i] == proj(items[i], p),
    decreases items.len(),
{
    if items.len() > 0 {
        let u = items.subrange(0, items.len() - 1);
        lemma_proj_items_index(u, p);
        assert forall|i: int| 0 <= i < items.len() implies #[trigger] proj_items(items, p)[i] == proj(items[i], p) by {
            if i < items.len() - 1 {
                assert(u[i] == items[i]);
            }
        }
    }
}

/// Looking up a key after appending a member finds the first occurrence.
proof fn lemma_lookup_push<V>(s: Seq<(Seq<char>, V)>, e: (Seq<char>, V), k: Seq<char>)
    ensures
        obj_lookup(s.push(e), k) == match obj_lookup(s, k) {
            Some(x) => Some(x),
            None => if e.0 == k { Some(e.1) } else { None },
        },
    decreases s.len(),
{
    let t = s.push(e);
    if s.len() > 0 {
        assert(t[0] == s[0]);
        assert(t.drop_first() =~= s.drop_first().push(e));
        lemma_lookup_push(s.drop_first(), e, k);
        if s[0].0 == k {
            assert(obj_lookup(t, k) == Some(s[0].1));
        } else {
            assert(obj_lookup(t, k) == obj_lookup(t.drop_first(), k));
            assert(obj_lookup(s, k) == obj_lookup(s.drop_first(), k));
        }
    } else {
        assert(t[0] == e);
        assert(t.drop_first() =~= Seq::<(Seq<char>, V)>::empty());
        assert(obj_lookup(s, k) is None);
        assert(obj_lookup(t.drop_first(), k) is None);
    }
}

/// A projected object holds no member whose name is not in the tree.
proof fn lemma_members_names(o: Seq<(Seq<char>, JsonV)>, t: Seq<(Seq<char>, ProjV)>, k: Seq<char>)
    requires
        forall|i: int| 0 <= i < t.len() ==> t[i].0 != k,
    ensures
        obj_lookup(proj_members(o, t), k) is None,
    decreases t.len(),
{
    if t.len() > 0 {
        let u = t.subrange(0, t.len() - 1);
        assert forall|i: int| 0 <= i < u.len() implies u[i].0 != k by {
            assert(u[i] == t[i]);
        }
        lemma_members_names(o, u, k);
        let last = t[t.len() - 1];
        match obj_lookup(o, last.0) {
            Some(x) => {
                lemma_lookup_push(proj_members(o, u), (last.0, proj(x, last.1)), k);
            },
            None => {},
        }
    }
}

/// Appending a member whose name is not in the tree does not change the
/// projection.
proof fn lemma_members_ignore_push(s: Seq<(Seq<char>, JsonV)>, e: (Seq<char>, JsonV), t: Seq<(Seq<char>, ProjV)>)
    requires
        forall|i: int| 0 <= i < t.len() ==> t[i].0 != e.0,
    ensures
        proj_members(s.push(e), t) == proj_members(s, t),
    decreases t.len(),
{
    if t.len() > 0 {
        let u = t.subrange(0, t.len() - 1);
        assert forall|i: int| 0 <= i < u.len() implies u[i].0 != e.0 by {
            assert(u[i] == t[i]);
        }
        lemma_members_ignore_push(s, e, u);
        lemma_lookup_push(s, e, t[t.len() - 1].0);
    }
}

/// In a tree with ascending names, the member `k` of a projected object is
/// the object's member `k` projected through the child `k`, and there is
/// none where either is missing.
proof fn lemma_members_lookup(o: Seq<(Seq<char>, JsonV)>, t: Seq<(Seq<char>, ProjV)>, k: Seq<char>)
    requires
        keys_ascending(t),
    ensures
        obj_lookup(proj_members(o, t), k) == match (find(t, k), obj_lookup(o, k)) {
            (Some(c), Some(x)) => Some(proj(x, c)),
            _ => None,
        },
    decreases t.len(),
{
    if t.len() > 0 {
        let n = t.len() - 1;
        let u = t.subrange(0, n);
        assert(keys_ascending(u)) by {
            assert forall|i: int, j: int| 0 <= i < j < u.len() implies seq_lt(#[trigger] u[i].0, #[trigger] u[j].0) by {
                assert(u[i] == t[i] && u[j] == t[j]);
            }
        }
        assert(t.drop_last() =~= u);
        let last = t[n];
        assert(last == t.last());
        if last.0 == k {
            assert forall|i: int| 0 <= i < u.len() implies u[i].0 != k by {
                assert(u[i] == t[i]);
                lemma_seq_lt_strict(t[i].0, t[n].0);
            }
            lemma_members_names(o, u, k);
        } else {
            lemma_members_lookup(o, u, k);
        }
        match obj_lookup(o, last.0) {
            Some(x) => {
                lemma_lookup_push(proj_members(o, u), (last.0, proj(x, last.1)), k);
            },
            None => {},
        }
    }
}

/// How `project` treats each value: a `Leaf` keeps it whole; through a tree,
/// an object keeps exactly the members named in the tree, each projected
/// through its child (shown here for any name `k`), an array projects every
/// element through the same tree, and any other value is kept.
pub proof fn lemma_project_rules(v: JsonV, p: ProjV, k: Seq<char>)
    requires
        proj_wf(p),
    ensures
        match (p, v) {
            (ProjV::Leaf, _) => proj(v, p) == v,
            (ProjV::Tree(t), JsonV::Object(o)) => proj(v, p) == JsonV::Object(proj_members(o, t))
                && obj_lookup(proj_members(o, t), k) == match (find(t, k), obj_lookup(o, k)) {
                    (Some(c), Some(x)) => Some(proj(x, c)),
                    _ => None,
                },
            (ProjV::Tree(_), JsonV::Array(items)) => proj(v, p) == JsonV::Array(proj_items(items, p))
                && proj_items(items, p).len() == items.len()
                && forall|i: int| 0 <= i < items.len() ==> #[trigger] proj_items(items, p)[i] == proj(items[i], p),
            _ => proj(v, p) == v,
        },
{
    match (p, v) {
        (ProjV::Tree(t), JsonV::Object(o)) => {
            lemma_members_lookup(o, t, k);
        },
        (ProjV::Tree(_), JsonV::Array(items)) => {
            lemma_proj_items_index(items, p);
        },
        _ => {},
    }
}

/// Projecting an object's members twice through a tree with ascending names
/// whose children are idempotent gives the first projection again.
proof fn lemma_members_idempotent(o: Seq<(Seq<char>, JsonV)>, t: Seq<(Seq<char>, ProjV)>)
    requires
        keys_ascending(t),
        forall|i: int, x: JsonV| 0 <= i < t.len() ==> #[trigger] proj(proj(x, t[i].1), t[i].1) == proj(x, t[i].1),
    ensures
        proj_members(proj_members(o, t), t) == proj_members(o, t),
    decreases t.len(),
{
    if t.len() > 0 {
        let n = t.len() - 1;
        let u = t.subrange(0, n);
        let k = t[n].0;
        let c = t[n].1;
        assert(keys_ascending(u)) by {
            assert forall|i: int, j: int| 0 <= i < j < u.len() implies seq_lt(#[trigger] u[i].0, #[trigger] u[j].0) by {
                assert(u[i] == t[i] && u[j] == t[j]);
            }
        }
        assert forall|i: int, x: JsonV| 0 <= i < u.len() implies #[trigger] proj(proj(x, u[i].1), u[i].1) == proj(x, u[i].1) by {
            assert(u[i] == t[i]);
            assert(proj(proj(x, t[i].1), t[i].1) == proj(x, t[i].1));
        }
        lemma_members_idempotent(o, u);
        let r1 = proj_members(o, u);
        assert forall|i: int| 0 <= i < u.len() implies u[i].0 != k by {
            assert(u[i] == t[i]);
            lemma_seq_lt_strict(t[i].0, t[n].0);
        }
        lemma_members_names(o, u, k);
        match obj_lookup(o, k) {
            Some(x) => {
                let e = (k, proj(x, c));
                assert(proj_members(o, t) == r1.push(e));
                lemma_members_ignore_push(r1, e, u);
                lemma_lookup_push(r1, e, k);
                assert(proj(proj(x, t[n].1), t[n].1) == proj(x, t[n].1));
            },
            None => {
                assert(proj_members(o, t) == r1);
            },
        }
    }
}

/// Projection is idempotent: projecting an already projected value through
/// the same well-formed tree changes nothing, so `--fields` applied twice
/// gives what it gives once.
pub proof fn lemma_projection_idempotent(v: JsonV, p: ProjV)
    requires
        proj_wf(p),
    ensures
        proj(proj(v, p), p) == proj(v, p),
    decreases p, v,
{
    match p {
        ProjV::Leaf => {},
        ProjV::Tree(t) => {
            lemma_children_wf(t);
            match v {
                JsonV::Object(o) => {
                    assert forall|i: int, x: JsonV| 0 <= i < t.len() implies #[trigger] proj(proj(x, t[i].1), t[i].1) == proj(x, t[i].1) by {
                        assert(decreases_to!(p => t));
                        assert(decreases_to!(t => t[i]));
                        assert(decreases_to!(t[i] => t[i].1));
                        lemma_projection_idempotent(x, t[i].1);
                    }
                    lemma_members_idempotent(o, t);
                },
                JsonV::Array(items) => {
                    let once = proj_items(items, p);
                    lemma_proj_items_index(items, p);
                    lemma_proj_items_index(once, p);
                    assert forall|i: int| 0 <= i < items.len() implies #[trigger] proj_items(once, p)[i] == once[i] by {
                        assert(decreases_to!(v => items));
                        assert(decreases_to!(items => items[i]));
                        lemma_projection_idempotent(items[i], p);
                    }
                    assert(proj_items(once, p) =~= once);
                },
                _ => {},
            }
        },
    }
}

/// Every child of an ordered insertion is an old child or the new one.
proof fn lemma_put_children(e: Seq<(Seq<char>, ProjV)>, k: Seq<char>, v: ProjV)
    requires
        forall|i: int| 0 <= i < e.len() ==> proj_wf(#[trigger] e[i].1),
        proj_wf(v),
    ensures
        forall|i: int| 0 <= i < put(e, k, v).len() ==> proj_wf(#[trigger] put(e, k, v)[i].1),
{
    let p = pos_of(e, k) as int;
    lemma_pos_of_bound(e, k);
    let r = put(e, k, v);
    assert forall|i: int| 0 <= i < r.len() implies proj_wf(#[trigger] r[i].1) by {
        if has_at_pos(e, k) {
            if i != p {
                assert(r[i] == e[i]);
            }
        } else {
            if i < p {
                assert(r[i] == e[i]);
            } else if i > p {
                assert(r[i] == e[i - 1]);
            }
        }
    }
}

/// Inserting a path keeps a projection tree well formed.
proof fn lemma_ins_wf(node: ProjV, segs: Seq<Seq<char>>)
    requires
        proj_wf(node),
    ensures
        proj_wf(ins(node, segs)),
    decreases segs.len(),
{
    match node {
        ProjV::Leaf => {},
        ProjV::Tree(ch) => {
            lemma_children_wf(ch);
            if segs.len() == 1 {
                lemma_put(ch, segs[0], ProjV::Leaf);
                lemma_put_children(ch, segs[0], ProjV::Leaf);
                lemma_children_wf(put(ch, segs[0], ProjV::Leaf));
            } else if segs.len() > 1 {
                let child = if has_at_pos(ch, segs[0]) {
                    ch[pos_of(ch, segs[0]) as int].1
                } else {
                    ProjV::Tree(Seq::empty())
                };
                assert(proj_wf(child)) by {
                    if !has_at_pos(ch, segs[0]) {
                        assert(keys_ascending(Seq::<(Seq<char>, ProjV)>::empty()));
                        assert(children_wf(Seq::<(Seq<char>, ProjV)>::empty()));
                    }
                }
                lemma_ins_wf(child, segs.drop_first());
                let sub = ins(child, segs.drop_first());
                lemma_put(ch, segs[0], sub);
                lemma_put_children(ch, segs[0], sub);
                lemma_children_wf(put(ch, segs[0], sub));
            }
        },
    }
}

/// The projection that `--fields` paths describe is well formed.
pub proof fn lemma_projection_of_wf(paths: Seq<Seq<char>>)
    ensures
        proj_wf(projection_of(paths)),
    decreases paths.len(),
{
    if paths.len() == 0 {
        assert(keys_ascending(Seq::<(Seq<char>, ProjV)>::empty()));
        assert(children_wf(Seq::<(Seq<char>, ProjV)>::empty()));
    } else {
        lemma_projection_of_wf(paths.drop_last());
        lemma_ins_wf(projection_of(paths.drop_last()), path_segments(paths.last()));
    }
}

/// `--fields` is idempotent: projecting a value twice through the paths'
/// projection gives what projecting it once does.
pub proof fn lemma_fields_idempotent(v: JsonV, paths: Seq<Seq<char>>)
    ensures
        proj(proj(v, projection_of(paths)), projection_of(paths)) == proj(v, projection_of(paths)),
{
    lemma_projection_of_wf(paths);
    lemma_projection_idempotent(v, projection_of(paths));
}


/// What a projection keeps at the path `q`: `Some(true)` where a `Leaf` lies
/// on the way (everything below is kept), `Some(false)` where `q` names an
/// inner node, `None` where the projection drops it.
pub open spec fn kept_at(p: ProjV, q: Seq<Seq<char>>) -> Option<bool>
    decreases q.len(),
{
    match p {
        ProjV::Leaf => Some(true),
        ProjV::Tree(t) => if q.len() == 0 {
            Some(false)
        } else {
            match find(t, q[0]) {
                Some(c) => kept_at(c, q.drop_first()),
                None => None,
            }
        },
    }
}

/// What `--fields` paths keep at `q`, read off the paths themselves: all of
/// it where one path's segments lead to `q` or above it; an inner node where
/// `q` is the root or leads part of the way along a path; nothing otherwise.
pub open spec fn kept_by_paths(paths: Seq<Seq<char>>, q: Seq<Seq<char>>) -> Option<bool> {
    if exists|i: int| 0 <= i < paths.len() && #[trigger] path_segments(paths[i]).len() > 0 && path_segments(paths[i]).is_prefix_of(q) {
        Some(true)
    } else if q.len() == 0 || exists|i: int| 0 <= i < paths.len() && q.len() < #[trigger] path_segments(paths[i]).len() && q.is_prefix_of(path_segments(paths[i])) {
        Some(false)
    } else {
        None
    }
}

/// In an ascending list, a key that is not at its place is absent.
proof fn lemma_absent(e: Seq<(Seq<char>, ProjV)>, k: Seq<char>)
    requires
        keys_ascending(e),
        !has_at_pos(e, k),
    ensures
        find(e, k) is None,
{
    lemma_pos_of_bound(e, k);
    lemma_find_ascending(e, k);
    let p = pos_of(e, k) as int;
    assert forall|i: int| 0 <= i < e.len() implies e[i].0 != k by {
        if i < p {
            assert(seq_lt(e[i].0, k));
            lemma_seq_lt_irreflexive(k);
        } else {
            assert(e[p].0 != k);
            lemma_seq_lt_total(e[p].0, k);
            lemma_seq_lt_irreflexive(k);
            if i > p {
                assert(seq_lt(e[p].0, e[i].0));
                lemma_seq_lt_transitive(k, e[p].0, e[i].0);
            }
        }
    }
}

/// Inserting the segments `s` keeps everything at and below `s`, adds inner
/// nodes on the way to it, and leaves every other path as it was.
spec fn kept_after_ins(n: ProjV, s: Seq<Seq<char>>, q: Seq<Seq<char>>) -> Option<bool> {
    if kept_at(n, q) == Some(true) || s.is_prefix_of(q) {
        Some(true)
    } else if q.len() < s.len() && q.is_prefix_of(s) {
        Some(false)
    } else {
        kept_at(n, q)
    }
}

#[verifier::spinoff_prover]
proof fn lemma_ins_kept(n: ProjV, s: Seq<Seq<char>>, q: Seq<Seq<char>>)
    requires
        proj_wf(n),
        s.len() > 0,
    ensures
        kept_at(ins(n, s), q) == kept_after_ins(n, s, q),
    decreases s.len(),
{
    match n {
        ProjV::Leaf => {
            assert(ins(n, s) == ProjV::Leaf);
            assert(kept_at(ProjV::Leaf, q) == Some(true));
        },
        ProjV::Tree(ch) => {
            lemma_children_wf(ch);
            if q.len() == 0 {
                assert(!s.is_prefix_of(q));
                assert(q.is_prefix_of(s));
                assert(kept_at(ins(n, s), q) == kept_after_ins(n, s, q));
            } else if q[0] != s[0] {
                assert(s.is_prefix_of(q) ==> s[0] == q.subrange(0, s.len() as int)[0]);
                assert(q.is_prefix_of(s) ==> q[0] == s.subrange(0, q.len() as int)[0]);
                if s.len() == 1 {
                    lemma_put(ch, s[0], ProjV::Leaf);
                    assert(find(put(ch, s[0], ProjV::Leaf), q[0]) == find(ch, q[0]));
                } else {
                    let child = if has_at_pos(ch, s[0]) { ch[pos_of(ch, s[0]) as int].1 } else { ProjV::Tree(Seq::empty()) };
                    let sub = ins(child, s.drop_first());
                    lemma_put(ch, s[0], sub);
                    assert(find(put(ch, s[0], sub), q[0]) == find(ch, q[0]));
                }
                assert(kept_at(ins(n, s), q) == kept_after_ins(n, s, q));
            } else if s.len() == 1 {
                lemma_put(ch, s[0], ProjV::Leaf);
                assert(find(put(ch, s[0], ProjV::Leaf), q[0]) == Some(ProjV::Leaf));
                assert(ins(n, s) == ProjV::Tree(put(ch, s[0], ProjV::Leaf)));
                assert(kept_at(ProjV::Leaf, q.drop_first()) == Some(true));
                assert(s =~= q.subrange(0, 1));
                assert(s.is_prefix_of(q));
            } else {
                let child = if has_at_pos(ch, s[0]) { ch[pos_of(ch, s[0]) as int].1 } else { ProjV::Tree(Seq::empty()) };
                let s1 = s.drop_first();
                let q1 = q.drop_first();
                let sub = ins(child, s1);
                lemma_put(ch, s[0], sub);
                assert(find(put(ch, s[0], sub), q[0]) == Some(sub));
                if has_at_pos(ch, s[0]) {
                    lemma_pos_of_bound(ch, s[0]);
                    lemma_find_entry(ch, pos_of(ch, s[0]) as int);
                    assert(proj_wf(ch[pos_of(ch, s[0]) as int].1));
                } else {
                    lemma_absent(ch, s[0]);
                    assert(keys_ascending(Seq::<(Seq<char>, ProjV)>::empty()));
                    assert(children_wf(Seq::<(Seq<char>, ProjV)>::empty()));
                }
                lemma_ins_kept(child, s1, q1);
                assert(s.is_prefix_of(q) <==> s1.is_prefix_of(q1)) by {
                    if s.is_prefix_of(q) {
                        assert(s1 =~= q1.subrange(0, s1.len() as int));
                    }
                    if s1.is_prefix_of(q1) {
                        assert forall|x: int| 0 <= x < s.len() implies s[x] == q[x] by {
                            if x > 0 {
                                assert(s[x] == s1[x - 1]);
                                assert(q[x] == q1[x - 1]);
                                assert(s1[x - 1] == q1.subrange(0, s1.len() as int)[x - 1]);
                            }
                        }
                        assert(s =~= q.subrange(0, s.len() as int));
                    }
                }
                assert((q.len() < s.len() && q.is_prefix_of(s)) <==> (q1.len() < s1.len() && q1.is_prefix_of(s1))) by {
                    if q.len() < s.len() && q.is_prefix_of(s) {
                        assert(q1 =~= s1.subrange(0, q1.len() as int));
                    }
                    if q1.len() < s1.len() && q1.is_prefix_of(s1) {
                        assert forall|x: int| 0 <= x < q.len() implies q[x] == s[x] by {
                            if x > 0 {
                                assert(s[x] == s1[x - 1]);
                                assert(q[x] == q1[x - 1]);
                                assert(q1[x - 1] == s1.subrange(0, q1.len() as int)[x - 1]);
                            }
                        }
                        assert(q =~= s.subrange(0, q.len() as int));
                    }
                }
            }
        },
    }
}

/// The projection that paths build keeps at every path what the paths
/// themselves say.
proof fn lemma_projection_kept(paths: Seq<Seq<char>>, q: Seq<Seq<char>>)
    ensures
        kept_at(projection_of(paths), q) == kept_by_paths(paths, q),
    decreases paths.len(),
{
    if paths.len() > 0 {
        let a = paths.drop_last();
        let segs = path_segments(paths.last());
        lemma_projection_kept(a, q);
        lemma_projection_of_wf(a);
        let n = paths.len() - 1;
        assert(paths[n] == paths.last());
        let e1 = exists|i: int| 0 <= i < paths.len() && #[trigger] path_segments(paths[i]).len() > 0 && path_segments(paths[i]).is_prefix_of(q);
        let a1 = exists|i: int| 0 <= i < a.len() && #[trigger] path_segments(a[i]).len() > 0 && path_segments(a[i]).is_prefix_of(q);
        let e2 = exists|i: int| 0 <= i < paths.len() && q.len() < #[trigger] path_segments(paths[i]).len() && q.is_prefix_of(path_segments(paths[i]));
        let a2 = exists|i: int| 0 <= i < a.len() && q.len() < #[trigger] path_segments(a[i]).len() && q.is_prefix_of(path_segments(a[i]));
        assert(e1 <==> (a1 || (segs.len() > 0 && segs.is_prefix_of(q)))) by {
            if e1 {
                let i = choose|i: int| 0 <= i < paths.len() && #[trigger] path_segments(paths[i]).len() > 0 && path_segments(paths[i]).is_prefix_of(q);
                if i < n {
                    assert(a[i] == paths[i]);
                }
            }
            if a1 {
                let i = choose|i: int| 0 <= i < a.len() && #[trigger] path_segments(a[i]).len() > 0 && path_segments(a[i]).is_prefix_of(q);
                assert(a[i] == paths[i]);
            }
        }
        assert(e2 <==> (a2 || (q.len() < segs.len() && q.is_prefix_of(segs)))) by {
            if e2 {
                let i = choose|i: int| 0 <= i < paths.len() && q.len() < #[trigger] path_segments(paths[i]).len() && q.is_prefix_of(path_segments(paths[i]));
                if i < n {
                    assert(a[i] == paths[i]);
                }
            }
            if a2 {
                let i = choose|i: int| 0 <= i < a.len() && q.len() < #[trigger] path_segments(a[i]).len() && q.is_prefix_of(path_segments(a[i]));
                assert(a[i] == paths[i]);
            }
        }
        if segs.len() > 0 {
            lemma_ins_kept(projection_of(a), segs, q);
        }
    }
}

/// Two well-formed projections that keep the same thing at every path are
/// the same projection.
proof fn lemma_kept_determines(p1: ProjV, p2: ProjV)
    requires
        proj_wf(p1),
        proj_wf(p2),
        forall|q: Seq<Seq<char>>| #[trigger] kept_at(p1, q) == kept_at(p2, q),
    ensures
        p1 == p2,
    decreases p1,
{
    assert(kept_at(p1, Seq::empty()) == kept_at(p2, Seq::empty()));
    match p1 {
        ProjV::Leaf => {},
        ProjV::Tree(t1) => {
            let t2 = p2->Tree_0;
            lemma_children_wf(t1);
            lemma_children_wf(t2);
            assert forall|k: Seq<char>| #[trigger] find(t1, k) == find(t2, k) by {
                let q = seq![k];
                assert(kept_at(p1, q) == kept_at(p2, q));
                assert(q[0] == k);
                assert(q.drop_first() =~= Seq::<Seq<char>>::empty());
                if find(t1, k) is Some {
                    assert(kept_at(find(t1, k)->0, Seq::<Seq<char>>::empty()) is Some);
                }
                if find(t2, k) is Some {
                    assert(kept_at(find(t2, k)->0, Seq::<Seq<char>>::empty()) is Some);
                }
                if find(t1, k) is Some && find(t2, k) is Some {
                    let c1 = find(t1, k)->0;
                    let c2 = find(t2, k)->0;
                    lemma_find_some(t1, k);
                    lemma_find_some(t2, k);
                    let i = choose|i: int| 0 <= i < t1.len() && t1[i].0 == k && t1[i].1 == c1;
                    let j = choose|j: int| 0 <= j < t2.len() && t2[j].0 == k && t2[j].1 == c2;
                    assert(proj_wf(t1[i].1));
                    assert(proj_wf(t2[j].1));
                    assert forall|r: Seq<Seq<char>>| #[trigger] kept_at(c1, r) == kept_at(c2, r) by {
                        let kr = seq![k] + r;
                        assert(kr.drop_first() =~= r);
                        assert(kr[0] == k);
                        assert(kept_at(p1, kr) == kept_at(p2, kr));
                    }
                    assert(decreases_to!(p1 => t1));
                    assert(decreases_to!(t1 => t1[i]));
                    assert(decreases_to!(t1[i] => t1[i].1));
                    lemma_kept_determines(c1, c2);
                }
            }
            lemma_ascending_unique(t1, t2);
        },
    }
}

/// The projection that `--fields` paths describe depends only on which
/// paths are given: not on their order, nor on how often a path is repeated.
/// So a path that lies under another is absorbed by it whichever comes first.
pub proof fn lemma_projection_ignores_order_and_repetition(a: Seq<Seq<char>>, b: Seq<Seq<char>>)
    requires
        forall|x: Seq<char>| a.contains(x) <==> b.contains(x),
    ensures
        projection_of(a) == projection_of(b),
{
    lemma_projection_of_wf(a);
    lemma_projection_of_wf(b);
    assert forall|q: Seq<Seq<char>>| #[trigger] kept_at(projection_of(a), q) == kept_at(projection_of(b), q) by {
        lemma_projection_kept(a, q);
        lemma_projection_kept(b, q);
        if exists|i: int| 0 <= i < a.len() && #[trigger] path_segments(a[i]).len() > 0 && path_segments(a[i]).is_prefix_of(q) {
            let i = choose|i: int| 0 <= i < a.len() && #[trigger] path_segments(a[i]).len() > 0 && path_segments(a[i]).is_prefix_of(q);
            assert(a.contains(a[i]));
            let j = choose|j: int| 0 <= j < b.len() && b[j] == a[i];
            assert(path_segments(b[j]).len() > 0);
        }
        if exists|j: int| 0 <= j < b.len() && #[trigger] path_segments(b[j]).len() > 0 && path_segments(b[j]).is_prefix_of(q) {
            let j = choose|j: int| 0 <= j < b.len() && #[trigger] path_segments(b[j]).len() > 0 && path_segments(b[j]).is_prefix_of(q);
            assert(b.contains(b[j]));
            let i = choose|i: int| 0 <= i < a.len() && a[i] == b[j];
            assert(path_segments(a[i]).len() > 0);
        }
        if exists|i: int| 0 <= i < a.len() && q.len() < #[trigger] path_segments(a[i]).len() && q.is_prefix_of(path_segments(a[i])) {
            let i = choose|i: int| 0 <= i < a.len() && q.len() < #[trigger] path_segments(a[i]).len() && q.is_prefix_of(path_segments(a[i]));
            assert(a.contains(a[i]));
            let j = choose|j: int| 0 <= j < b.len() && b[j] == a[i];
            assert(q.len() < path_segments(b[j]).len());
        }
        if exists|j: int| 0 <= j < b.len() && q.len() < #[trigger] path_segments(b[j]).len() && q.is_prefix_of(path_segments(b[j])) {
            let j = choose|j: int| 0 <= j < b.len() && q.len() < #[trigger] path_segments(b[j]).len() && q.is_prefix_of(path_segments(b[j]));
            assert(b.contains(b[j]));
            let i = choose|i: int| 0 <= i < a.len() && a[i] == b[j];
            assert(q.len() < path_segments(a[i]).len());
        }
    }
    lemma_kept_determines(projection_of(a), projection_of(b));
}

/// The `--event-year` filter of the event-record commands keeps exactly the
/// documents that pass it, in their order: every kept document passes, the
/// filter keeps nothing new, and filtering again changes nothing; without a
/// year every document is kept.
pub proof fn lemma_year_filter(docs: Seq<JsonV>, year: Option<i32>)
    ensures
        forall|i: int| 0 <= i < year_filtered(docs, year).len() ==> year_matches(#[trigger] year_filtered(docs, year)[i], year),
        forall|i: int| 0 <= i < year_filtered(docs, year).len() ==> docs.contains(#[trigger] year_filtered(docs, year)[i]),
        year_filtered(docs, year).len() <= docs.len(),
        year_filtered(year_filtered(docs, year), year) == year_filtered(docs, year),
        year is None ==> year_filtered(docs, year) == docs,
    decreases docs.len(),
{
    if docs.len() > 0 {
        let prev = docs.drop_last();
        lemma_year_filter(prev, year);
        let f = year_filtered(prev, year);
        assert forall|i: int| 0 <= i < f.len() implies docs.contains(#[trigger] f[i]) by {
            assert(prev.contains(f[i]));
            let j = choose|j: int| 0 <= j < prev.len() && prev[j] == f[i];
            assert(docs[j] == f[i]);
        }
        assert(docs[docs.len() - 1] == docs.last());
        if year_matches(docs.last(), year) {
            let g = f.push(docs.last());
            assert(g.drop_last() =~= f);
            assert(year_filtered(g, year) == year_filtered(f, year).push(docs.last()));
        }
        if year is None {
            assert(prev.push(docs.last()) =~= docs);
        }
    }
}


/// How long a cache entry is served: an entry that lives until midnight is
/// served exactly during the UTC day in which it was written; a fixed
/// lifetime of `d` is served for `d` (whole milliseconds) after writing; a
/// `never`-expiring entry has no expiry.
pub proof fn lemma_entry_lifetime(ttl: Ttl, written_ms: int, now_ms: int)
    requires
        0 <= written_ms <= now_ms,
    ensures
        ttl is Never ==> expiry(ttl, written_ms) is None,
        ttl is UntilMidnight ==> expiry(ttl, written_ms) == Some(next_midnight(written_ms))
            && (now_ms < next_midnight(written_ms) <==> now_ms / (DAY_MS as int) == written_ms / (DAY_MS as int)),
        ttl matches Ttl::Fixed(d) ==> {
            let end = written_ms + d.secs * 1000 + d.nanos / 1_000_000;
            end <= i64::MAX ==> expiry(ttl, written_ms) == Some(end)
        },
{
    let day = DAY_MS as int;
    let w = written_ms / day;
    let n = now_ms / day;
    assert(day == 86_400_000);
    assert(w * day <= written_ms < (w + 1) * day) by (nonlinear_arith)
        requires w == written_ms / day, day > 0, written_ms >= 0;
    assert(n * day <= now_ms < (n + 1) * day) by (nonlinear_arith)
        requires n == now_ms / day, day > 0, now_ms >= 0;
    assert(w <= n) by (nonlinear_arith)
        requires w * day <= written_ms, written_ms <= now_ms, now_ms < (n + 1) * day, day > 0;
    if n == w {
        assert(now_ms < (w + 1) * day);
    } else {
        assert((w + 1) * day <= n * day) by (nonlinear_arith)
            requires w + 1 <= n, day > 0;
    }
}


/// A cache key depends on the base URL only through its canonical form: two
/// bases with the same canonical form give the same key for every request.
pub proof fn lemma_key_depends_on_canonical_base(
    b1: Seq<char>,
    b2: Seq<char>,
    method: Seq<char>,
    path: Seq<char>,
    params: Seq<(Seq<char>, Seq<char>)>,
    ttl_class: Seq<char>,
)
    requires
        canonical_base(b1) == canonical_base(b2),
    ensures
        key_spec(b1, method, path, params, ttl_class) == key_spec(b2, method, path, params, ttl_class),
{
}

/// The schema's error block lists every error kind exactly once.
pub proof fn lemma_error_kinds_listed_once(k: ErrorKind)
    ensures
        all_kinds().len() == 8,
        exists|i: int| 0 <= i < 8 && all_kinds()[i] == k,
        forall|i: int, j: int| 0 <= i < j < 8 ==> all_kinds()[i] != all_kinds()[j],
{
    match k {
        ErrorKind::Validation => assert(all_kinds()[0] == k),
        ErrorKind::NotFound => assert(all_kinds()[1] == k),
        ErrorKind::RateLimit => assert(all_kinds()[2] == k),
        ErrorKind::Timeout => assert(all_kinds()[3] == k),
        ErrorKind::Network => assert(all_kinds()[4] == k),
        ErrorKind::Server => assert(all_kinds()[5] == k),
        ErrorKind::Parse => assert(all_kinds()[6] == k),
        ErrorKind::Conflict => assert(all_kinds()[7] == k),
    }
}

/// Inserting a path into a projection: under a `Leaf` nothing changes;
/// otherwise the children keep ascending names, the child named by the first
/// segment becomes a `Leaf` (a path of one segment) or the old child (or an
/// empty tree) with the remaining segments inserted, and every other child
/// stays as it was.
pub proof fn lemma_insert_path(node: ProjV, segs: Seq<Seq<char>>)
    requires
        proj_wf(node),
        segs.len() > 0,
    ensures
        proj_wf(ins(node, segs)),
        node is Leaf ==> ins(node, segs) == ProjV::Leaf,
        node matches ProjV::Tree(ch) ==> ins(node, segs) matches ProjV::Tree(ch2)
            && forall|q: Seq<char>| #[trigger] find(ch2, q) == if q == segs[0] {
                Some(if segs.len() == 1 {
                    ProjV::Leaf
                } else {
                    ins(match find(ch, segs[0]) { Some(c) => c, None => ProjV::Tree(Seq::empty()) }, segs.drop_first())
                })
            } else {
                find(ch, q)
            },
{
    lemma_ins_wf(node, segs);
    if let ProjV::Tree(ch) = node {
        if segs.len() == 1 {
            lemma_put(ch, segs[0], ProjV::Leaf);
        } else {
            let child = if has_at_pos(ch, segs[0]) { ch[pos_of(ch, segs[0]) as int].1 } else { ProjV::Tree(Seq::empty()) };
            if has_at_pos(ch, segs[0]) {
                lemma_pos_of_bound(ch, segs[0]);
                lemma_find_entry(ch, pos_of(ch, segs[0]) as int);
            } else {
                lemma_absent(ch, segs[0]);
            }
            lemma_put(ch, segs[0], ins(child, segs.drop_first()));
        }
    }
}


// ---------------------------------------------------------------------------
// The event-record flags.

/// One item of an event-record command line, as a reader means it: a
/// positional argument, or one of the three filters with its value, written
/// `--flag=VALUE` (`true`) or `--flag VALUE` (`false`).
pub enum FlagItem {
    Positional(Seq<char>),
    Year(Seq<char>, bool),
    Place(Seq<char>, bool),
    Province(Seq<char>, bool),
}

/// The tokens an item is written as.
pub open spec fn item_tokens(it: FlagItem) -> Seq<Seq<char>> {
    match it {
        FlagItem::Positional(s) => seq![s],
        FlagItem::Year(v, eq) => if eq { seq!["--event-year="@ + v] } else { seq!["--event-year"@, v] },
        FlagItem::Place(v, eq) => if eq { seq!["--event-place="@ + v] } else { seq!["--event-place"@, v] },
        FlagItem::Province(v, eq) => if eq { seq!["--event-province="@ + v] } else { seq!["--event-province"@, v] },
    }
}

/// The tokens of a command line made of these items.
pub open spec fn tokens_of(items: Seq<FlagItem>) -> Seq<Seq<char>>
    decreases items.len(),
{
    if items.len() == 0 {
        Seq::empty()
    } else {
        item_tokens(items[0]) + tokens_of(items.drop_first())
    }
}

/// A well-written item: a positional does not start with `--`, a value
/// written apart from its flag does not either, a year is an `i32`, and the
/// province filter only where the command takes it.
pub open spec fn item_ok(it: FlagItem, allow: bool) -> bool {
    match it {
        FlagItem::Positional(s) => !is_prefix("--"@, s),
        FlagItem::Year(v, eq) => event_year_of(v) is Ok && (!eq ==> !is_prefix("--"@, v)),
        FlagItem::Place(v, eq) => !eq ==> !is_prefix("--"@, v),
        FlagItem::Province(v, eq) => allow && (!eq ==> !is_prefix("--"@, v)),
    }
}

/// The positional arguments among the items, in order.
pub open spec fn positionals(items: Seq<FlagItem>) -> Seq<Seq<char>>
    decreases items.len(),
{
    if items.len() == 0 {
        Seq::empty()
    } else {
        let rest = positionals(items.drop_first());
        match items[0] {
            FlagItem::Positional(s) => seq![s] + rest,
            _ => rest,
        }
    }
}

/// The filters after the items, from `f`: each filter's last value.
pub open spec fn flags_after(f: FlagsV, items: Seq<FlagItem>) -> FlagsV
    decreases items.len(),
{
    if items.len() == 0 {
        f
    } else {
        let g = match items[0] {
            FlagItem::Positional(_) => f,
            FlagItem::Year(v, _) => with_year(f, event_year_of(v)->Ok_0),
            FlagItem::Place(v, _) => with_place(f, v),
            FlagItem::Province(v, _) => with_province(f, v),
        };
        flags_after(g, items.drop_first())
    }
}

/// Where `a` and `b` differ at `k`, neither is a prefix of the other's text
/// and they are different.
proof fn lemma_differ_at(a: Seq<char>, b: Seq<char>, k: int)
    requires
        0 <= k < a.len(),
        k < b.len(),
        a[k] != b[k],
    ensures
        !is_prefix(a, b),
        a != b,
{
    if is_prefix(a, b) {
        assert(b.subrange(0, a.len() as int)[k] == b[k]);
    }
}

/// A token that starts with a flag's text starts with `--`.
proof fn lemma_dashes(l: Seq<char>, s: Seq<char>)
    requires
        is_prefix("--"@, l),
        is_prefix(l, s),
    ensures
        is_prefix("--"@, s),
{
    reveal_strlit("--");
    assert forall|x: int| 0 <= x < 2 implies s[x] == "--"@[x] by {
        assert(s.subrange(0, l.len() as int)[x] == s[x]);
        assert(l.subrange(0, 2)[x] == l[x]);
    }
    assert(s.subrange(0, 2) =~= "--"@);
}

/// Every flag's text starts with `--`.
proof fn lemma_flags_dashed()
    ensures
        is_prefix("--"@, "--event-year="@),
        is_prefix("--"@, "--event-year"@),
        is_prefix("--"@, "--event-place="@),
        is_prefix("--"@, "--event-place"@),
        is_prefix("--"@, "--event-province="@),
        is_prefix("--"@, "--event-province"@),
{
    reveal_strlit("--");
    reveal_strlit("--event-year=");
    reveal_strlit("--event-year");
    reveal_strlit("--event-place=");
    reveal_strlit("--event-place");
    reveal_strlit("--event-province=");
    reveal_strlit("--event-province");
    assert("--event-year="@.subrange(0, 2) =~= "--"@);
    assert("--event-year"@.subrange(0, 2) =~= "--"@);
    assert("--event-place="@.subrange(0, 2) =~= "--"@);
    assert("--event-place"@.subrange(0, 2) =~= "--"@);
    assert("--event-province="@.subrange(0, 2) =~= "--"@);
    assert("--event-province"@.subrange(0, 2) =~= "--"@);
}

/// One item read from position `i`: the reader continues after its tokens
/// with the item's positional or filter taken in.
proof fn lemma_item_step(p: Seq<Seq<char>>, it: FlagItem, r: Seq<Seq<char>>, allow: bool, cmd: Seq<char>, pos: Seq<Seq<char>>, f: FlagsV)
    requires
        item_ok(it, allow),
    ensures
        common_from(p + item_tokens(it) + r, p.len() as int, allow, cmd, pos, f) == common_from(
            p + item_tokens(it) + r,
            (p + item_tokens(it)).len() as int,
            allow,
            cmd,
            match it { FlagItem::Positional(s) => pos.push(s), _ => pos },
            match it {
                FlagItem::Positional(_) => f,
                FlagItem::Year(v, _) => with_year(f, event_year_of(v)->Ok_0),
                FlagItem::Place(v, _) => with_place(f, v),
                FlagItem::Province(v, _) => with_province(f, v),
            },
        ),
{
    reveal_strlit("--");
    reveal_strlit("--event-year=");
    reveal_strlit("--event-year");
    reveal_strlit("--event-place=");
    reveal_strlit("--event-place");
    reveal_strlit("--event-province=");
    reveal_strlit("--event-province");
    let rest = p + item_tokens(it) + r;
    let i = p.len() as int;
    let t = item_tokens(it);
    assert(rest[i] == t[0]);
    let s = t[0];
    let ye = "--event-year="@;
    let y = "--event-year"@;
    let pe = "--event-place="@;
    let pl = "--event-place"@;
    let re = "--event-province="@;
    let rp = "--event-province"@;
    match it {
        FlagItem::Positional(x) => {
            lemma_flags_dashed();
            assert(s == x);
            if is_prefix(ye, s) { lemma_dashes(ye, s); }
            if is_prefix(pe, s) { lemma_dashes(pe, s); }
            if is_prefix(re, s) { lemma_dashes(re, s); }
            if s == y { assert(is_prefix(y, s)); lemma_dashes(y, s); }
            if s == pl { assert(is_prefix(pl, s)); lemma_dashes(pl, s); }
            if s == rp { assert(is_prefix(rp, s)); lemma_dashes(rp, s); }
        },
        FlagItem::Year(v, eq) => {
            if eq {
                assert(s.subrange(0, ye.len() as int) =~= ye);
                assert(after(ye, s) =~= v);
            } else {
                assert(s == y);
                assert(!is_prefix(ye, s));
                assert(rest[i + 1] == v);
            }
        },
        FlagItem::Place(v, eq) => {
            lemma_differ_at(ye, s, 8);
            lemma_differ_at(y, s, 8);
            if eq {
                assert(s.subrange(0, pe.len() as int) =~= pe);
                assert(after(pe, s) =~= v);
            } else {
                assert(s == pl);
                assert(!is_prefix(pe, s));
                assert(rest[i + 1] == v);
            }
        },
        FlagItem::Province(v, eq) => {
            lemma_differ_at(ye, s, 8);
            lemma_differ_at(y, s, 8);
            lemma_differ_at(pe, s, 9);
            lemma_differ_at(pl, s, 9);
            if eq {
                assert(s.subrange(0, re.len() as int) =~= re);
                assert(after(re, s) =~= v);
            } else {
                assert(s == rp);
                assert(!is_prefix(re, s));
                assert(rest[i + 1] == v);
            }
        },
    }
}

/// Reading well-written items, whatever follows them, arrives after their
/// tokens with their positionals and filters taken in.
proof fn lemma_items_from(p: Seq<Seq<char>>, items: Seq<FlagItem>, r: Seq<Seq<char>>, allow: bool, cmd: Seq<char>, pos: Seq<Seq<char>>, f: FlagsV)
    requires
        forall|j: int| 0 <= j < items.len() ==> item_ok(#[trigger] items[j], allow),
    ensures
        common_from(p + tokens_of(items) + r, p.len() as int, allow, cmd, pos, f) == common_from(
            p + tokens_of(items) + r,
            (p + tokens_of(items)).len() as int,
            allow,
            cmd,
            pos + positionals(items),
            flags_after(f, items),
        ),
    decreases items.len(),
{
    if items.len() == 0 {
        assert(p + tokens_of(items) =~= p);
        assert(pos + positionals(items) =~= pos);
    } else {
        let it = items[0];
        let tail = items.drop_first();
        let t = item_tokens(it);
        let rt = tokens_of(tail);
        assert(p + tokens_of(items) + r =~= p + t + (rt + r));
        assert(item_ok(items[0], allow));
        let pos2 = match it { FlagItem::Positional(s) => pos.push(s), _ => pos };
        let f2 = match it {
            FlagItem::Positional(_) => f,
            FlagItem::Year(v, _) => with_year(f, event_year_of(v)->Ok_0),
            FlagItem::Place(v, _) => with_place(f, v),
            FlagItem::Province(v, _) => with_province(f, v),
        };
        lemma_item_step(p, it, rt + r, allow, cmd, pos, f);
        assert forall|j: int| 0 <= j < tail.len() implies item_ok(#[trigger] tail[j], allow) by {
            assert(tail[j] == items[j + 1]);
        }
        lemma_items_from(p + t, tail, r, allow, cmd, pos2, f2);
        assert((p + t) + rt + r =~= p + t + (rt + r));
        assert((p + t) + rt =~= p + tokens_of(items));
        match it {
            FlagItem::Positional(s) => {
                assert(pos.push(s) + positionals(tail) =~= pos + (seq![s] + positionals(tail)));
            },
            _ => {},
        }
    }
}

/// The event-record flags: a command line of well-written items reads as
/// its positional arguments, in order, and each filter's last value, or no
/// value for a filter not given; `--flag VALUE` and `--flag=VALUE` read the
/// same (the result does not depend on how each item was written).
pub proof fn lemma_common_flags_read(items: Seq<FlagItem>, allow: bool, cmd: Seq<char>)
    requires
        forall|j: int| 0 <= j < items.len() ==> item_ok(#[trigger] items[j], allow),
    ensures
        common_flags_of(tokens_of(items), allow, cmd) == Ok::<(Seq<Seq<char>>, FlagsV), Seq<char>>(
            (positionals(items), flags_after(no_flags(), items)),
        ),
{
    let e = Seq::<Seq<char>>::empty();
    lemma_items_from(e, items, e, allow, cmd, e, no_flags());
    assert(e + tokens_of(items) + e =~= tokens_of(items));
    assert(e + positionals(items) =~= positionals(items));
}

/// A token starting with `--` that is none of the three filters.
pub open spec fn unknown_flag(s: Seq<char>) -> bool {
    &&& is_prefix("--"@, s)
    &&& !is_prefix("--event-year="@, s) && s != "--event-year"@
    &&& !is_prefix("--event-place="@, s) && s != "--event-place"@
    &&& !is_prefix("--event-province="@, s) && s != "--event-province"@
}

/// The event-record flags' errors: after well-written items, the first bad
/// token decides the error. An unknown flag is reported with the token and
/// the command; the province filter, where the command does not take it,
/// with the command; a year that is not an `i32` with its value; and a flag
/// written apart from its value with nothing, or another flag, after it as a
/// missing value. (`parse_common_flags` makes each a validation error.)
pub proof fn lemma_common_flags_errors(items: Seq<FlagItem>, bad: Seq<char>, r: Seq<Seq<char>>, allow: bool, cmd: Seq<char>)
    requires
        forall|j: int| 0 <= j < items.len() ==> item_ok(#[trigger] items[j], allow),
    ensures
        unknown_flag(bad) ==> common_flags_of(tokens_of(items) + seq![bad] + r, allow, cmd)
            == Err::<(Seq<Seq<char>>, FlagsV), Seq<char>>("unknown flag "@ + bad + " for `"@ + cmd + "`"@),
        !allow && (bad == "--event-province"@ || is_prefix("--event-province="@, bad))
            ==> common_flags_of(tokens_of(items) + seq![bad] + r, allow, cmd)
            == Err::<(Seq<Seq<char>>, FlagsV), Seq<char>>(crate::commands::event_records::province_refused(cmd)),
        is_prefix("--event-year="@, bad) && event_year_of(after("--event-year="@, bad)) is Err
            ==> common_flags_of(tokens_of(items) + seq![bad] + r, allow, cmd)
            == Err::<(Seq<Seq<char>>, FlagsV), Seq<char>>(event_year_of(after("--event-year="@, bad))->Err_0),
        (bad == "--event-year"@ || bad == "--event-place"@ || (allow && bad == "--event-province"@)) && r.len() == 0
            ==> common_flags_of(tokens_of(items) + seq![bad] + r, allow, cmd)
            == Err::<(Seq<Seq<char>>, FlagsV), Seq<char>>(bad + ": missing value"@),
        (bad == "--event-year"@ || bad == "--event-place"@ || (allow && bad == "--event-province"@)) && r.len() > 0
            && is_prefix("--"@, r[0])
            ==> common_flags_of(tokens_of(items) + seq![bad] + r, allow, cmd)
            == Err::<(Seq<Seq<char>>, FlagsV), Seq<char>>(bad + ": missing value (got flag '"@ + r[0] + "' instead)"@),
{
    reveal_strlit("--event-year=");
    reveal_strlit("--event-year");
    reveal_strlit("--event-place=");
    reveal_strlit("--event-place");
    reveal_strlit("--event-province=");
    reveal_strlit("--event-province");
    let e = Seq::<Seq<char>>::empty();
    let rest = tokens_of(items) + seq![bad] + r;
    lemma_items_from(e, items, seq![bad] + r, allow, cmd, e, no_flags());
    assert(e + tokens_of(items) + (seq![bad] + r) =~= rest);
    assert(e + tokens_of(items) =~= tokens_of(items));
    let i = tokens_of(items).len() as int;
    assert(rest[i] == bad);
    if r.len() > 0 {
        assert(rest[i + 1] == r[0]);
    } else {
        assert(rest.len() == i + 1);
    }
    let ye = "--event-year="@;
    let pe = "--event-place="@;
    let re = "--event-province="@;
    if bad == "--event-year"@ {
        assert(!is_prefix(ye, bad));
    }
    if bad == "--event-place"@ {
        lemma_differ_at(ye, bad, 8);
        assert(!is_prefix(pe, bad));
    }
    if bad == "--event-province"@ {
        lemma_differ_at(ye, bad, 8);
        lemma_differ_at("--event-year"@, bad, 8);
        lemma_differ_at(pe, bad, 9);
        lemma_differ_at("--event-place"@, bad, 9);
        assert(!is_prefix(re, bad));
    }
    if is_prefix(re, bad) {
        assert(bad.subrange(0, 17)[8] == bad[8]);
        assert(bad.subrange(0, 17)[9] == bad[9]);
        lemma_differ_at(ye, bad, 8);
        lemma_differ_at("--event-year"@, bad, 8);
        lemma_differ_at(pe, bad, 9);
        lemma_differ_at("--event-place"@, bad, 9);
    }
}


// ---------------------------------------------------------------------------
// Paging parameters of requests.

/// Event-record searches ask for the page the reader asked for: an accepted
/// request sends `number_show` with the page size (the given `--limit`, else
/// 10) and `start` with the offset (the given `--offset`, else 0), and
/// reports the same size and offset for the envelope.
pub proof fn lemma_event_request_pages(
    cmd: Seq<char>,
    path: Seq<char>,
    allow_province: bool,
    ctx: ApiContext,
    primary: (Seq<char>, Seq<char>),
    secondary: Option<(Seq<char>, Seq<char>)>,
    f: FlagsV,
)
    ensures
        event_plan(cmd, path, allow_province, ctx, primary, secondary, f) matches Ok(r) ==> {
            let limit: u32 = match ctx.limit { Some(n) => n, None => 10 };
            let offset: u32 = match ctx.offset { Some(o) => o, None => 0 };
            &&& r.page_limit == Some(limit)
            &&& r.page_offset == Some(offset)
            &&& r.pairs.contains(("number_show"@, dec(limit as nat)))
            &&& r.pairs.contains(("start"@, dec(offset as nat)))
            &&& r.pairs.contains(primary)
            &&& (secondary matches Some(p) ==> r.pairs.contains(p))
            &&& (f.event_year matches Some(y) ==> r.pairs.contains(("eventyear"@, dec_int(y as int))))
            &&& (f.event_place matches Some(p) ==> r.pairs.contains(("eventplace"@, p)))
            &&& (f.event_province matches Some(p) ==> r.pairs.contains(("eventprovince"@, p)))
        },
{
    if let Ok(r) = event_plan(cmd, path, allow_province, ctx, primary, secondary, f) {
        let limit: u32 = match ctx.limit { Some(n) => n, None => 10 };
        let offset: u32 = match ctx.offset { Some(o) => o, None => 0 };
        let a = seq![primary, ("number_show"@, dec(limit as nat)), ("start"@, dec(offset as nat))];
        let b = match secondary { Some(p) => seq![p], None => Seq::empty() };
        let c = match f.event_year { Some(y) => seq![("eventyear"@, dec_int(y as int))], None => Seq::empty() };
        let d = match f.event_place { Some(p) => seq![("eventplace"@, p)], None => Seq::empty() };
        let e = match f.event_province { Some(p) => seq![("eventprovince"@, p)], None => Seq::empty() };
        assert(r.pairs == a + b + c + d + e);
        assert(r.pairs[0] == primary);
        assert(r.pairs[1] == ("number_show"@, dec(limit as nat)));
        assert(r.pairs[2] == ("start"@, dec(offset as nat)));
        if let Some(p) = secondary {
            assert(r.pairs[3] == p);
        }
        let i: int = 3 + b.len() as int;
        if let Some(y) = f.event_year {
            assert(r.pairs[i] == ("eventyear"@, dec_int(y as int)));
        }
        let j: int = i + c.len();
        if let Some(p) = f.event_place {
            assert(r.pairs[j] == ("eventplace"@, p));
        }
        let k: int = j + d.len();
        if let Some(p) = f.event_province {
            assert(r.pairs[k] == ("eventprovince"@, p));
        }
    }
}

/// `stats familynames` asks for as many names as the reader asked for: an
/// accepted request sends `number_show` with the page size (the given
/// `--limit`, else 20) and reports that size for the envelope.
pub proof fn lemma_familynames_request_page(ctx: ApiContext, a: FamilynamesArgs)
    ensures
        familynames_plan(ctx, a) matches Ok(r) ==> {
            let limit: u32 = match ctx.limit { Some(n) => n, None => 20 };
            &&& r.page_limit == Some(limit)
            &&& r.pairs.contains(("number_show"@, dec(limit as nat)))
            &&& r.pairs.contains(("lang"@, ctx.lang@))
            &&& (a.place matches Some(p) ==> r.pairs.contains(("eventplace"@, p@)))
            &&& (a.year_start matches Some(y) ==> r.pairs.contains(("eventyearstart"@, dec_int(y as int))))
            &&& (a.year_end matches Some(y) ==> r.pairs.contains(("eventyearend"@, dec_int(y as int))))
            &&& (a.event_type matches Some(t) ==> r.pairs.contains(("eventtype"@, dec_int(t as int))))
        },
{
    if let Ok(r) = familynames_plan(ctx, a) {
        let limit: u32 = match ctx.limit { Some(n) => n, None => 20 };
        let b = opt_pair("eventplace"@, a.place);
        let c = opt_int_pair("eventyearstart"@, a.year_start);
        let d = opt_int_pair("eventyearend"@, a.year_end);
        let e = opt_int_pair("eventtype"@, a.event_type);
        assert(r.pairs == seq![("number_show"@, dec(limit as nat)), ("lang"@, ctx.lang@)] + b + c + d + e);
        assert(r.pairs[0] == ("number_show"@, dec(limit as nat)));
        assert(r.pairs[1] == ("lang"@, ctx.lang@));
        if let Some(p) = a.place {
            assert(r.pairs[2] == ("eventplace"@, p@));
        }
        let i: int = 2 + b.len() as int;
        if let Some(y) = a.year_start {
            assert(r.pairs[i] == ("eventyearstart"@, dec_int(y as int)));
        }
        let j: int = i + c.len();
        if let Some(y) = a.year_end {
            assert(r.pairs[j] == ("eventyearend"@, dec_int(y as int)));
        }
        let k: int = j + d.len();
        if let Some(t) = a.event_type {
            assert(r.pairs[k] == ("eventtype"@, dec_int(t as int)));
        }
    }
}

// ---------------------------------------------------------------------------
// `cache info`.

/// The oldest and newest write instants of a tally: with no known instant
/// none; otherwise the oldest is a known instant no later than any other,
/// and the newest a known instant no earlier than any other.
pub proof fn lemma_tally_extremes(files: Seq<(u64, Option<i64>)>)
    ensures
        extreme(files, true) is None <==> (forall|i: int| 0 <= i < files.len() ==> (#[trigger] files[i]).1 is None),
        extreme(files, false) is None <==> (forall|i: int| 0 <= i < files.len() ==> (#[trigger] files[i]).1 is None),
        extreme(files, true) matches Some(m) ==> (exists|i: int| 0 <= i < files.len() && (#[trigger] files[i]).1 == Some(m))
            && (forall|i: int| 0 <= i < files.len() && (#[trigger] files[i]).1 is Some ==> m <= files[i].1->0),
        extreme(files, false) matches Some(m) ==> (exists|i: int| 0 <= i < files.len() && (#[trigger] files[i]).1 == Some(m))
            && (forall|i: int| 0 <= i < files.len() && (#[trigger] files[i]).1 is Some ==> files[i].1->0 <= m),
    decreases files.len(),
{
    if files.len() > 0 {
        let init = files.drop_last();
        let n = files.len() - 1;
        lemma_tally_extremes(init);
        assert(files[n] == files.last());
        assert forall|i: int| 0 <= i < init.len() implies init[i] == files[i] by {}
        if let Some(m) = extreme(init, true) {
            let i = choose|i: int| 0 <= i < init.len() && (#[trigger] init[i]).1 == Some(m);
            assert(files[i] == init[i]);
        }
        if let Some(m) = extreme(init, false) {
            let i = choose|i: int| 0 <= i < init.len() && (#[trigger] init[i]).1 == Some(m);
            assert(files[i] == init[i]);
        }
        if files.last().1 is None {
            assert forall|i: int| 0 <= i < files.len() && (init.len() == 0 || forall|j: int| 0 <= j < init.len() ==> (#[trigger] init[j]).1 is None) implies (#[trigger] files[i]).1 is None by {
                if i < n {
                    assert(init[i] == files[i]);
                }
            }
        }
    }
}

// ---------------------------------------------------------------------------
// Fields observed in a list.

proof fn lemma_kpos_bound(keys: Seq<Seq<char>>, k: Seq<char>)
    ensures
        kpos(keys, k) <= keys.len(),
    decreases keys.len(),
{
    if keys.len() > 0 && seq_lt(keys[0], k) {
        lemma_kpos_bound(keys.drop_first(), k);
    }
}

/// Putting a key into a key list: the keys there and the new one.
proof fn lemma_set_put_contains(keys: Seq<Seq<char>>, k: Seq<char>, q: Seq<char>)
    ensures
        set_put(keys, k).contains(q) <==> (keys.contains(q) || q == k),
{
    lemma_kpos_bound(keys, k);
    let p = kpos(keys, k) as int;
    if !(p < keys.len() && keys[p] == k) {
        let r = keys.insert(p, k);
        assert(r[p] == k);
        if keys.contains(q) {
            let i = choose|i: int| 0 <= i < keys.len() && keys[i] == q;
            if i < p { assert(r[i] == keys[i]); } else { assert(r[i + 1] == keys[i]); }
        }
        if r.contains(q) {
            let i = choose|i: int| 0 <= i < r.len() && r[i] == q;
            if i < p { assert(r[i] == keys[i]); } else if i > p { assert(r[i] == keys[i - 1]); }
        }
    } else {
        assert(keys[p] == k);
    }
}

/// Keys collected from members: the keys already there and the members' names.
proof fn lemma_add_keys(acc: Seq<Seq<char>>, pairs: Seq<(Seq<char>, JsonV)>, k: Seq<char>)
    ensures
        add_keys(acc, pairs).contains(k) <==> (acc.contains(k) || exists|j: int| 0 <= j < pairs.len() && (#[trigger] pairs[j]).0 == k),
    decreases pairs.len(),
{
    if pairs.len() > 0 {
        let init = pairs.drop_last();
        lemma_add_keys(acc, init, k);
        lemma_set_put_contains(add_keys(acc, init), pairs.last().0, k);
        if exists|j: int| 0 <= j < pairs.len() && (#[trigger] pairs[j]).0 == k {
            let j = choose|j: int| 0 <= j < pairs.len() && (#[trigger] pairs[j]).0 == k;
            if j < pairs.len() - 1 {
                assert(init[j] == pairs[j]);
            }
        }
        if exists|j: int| 0 <= j < init.len() && (#[trigger] init[j]).0 == k {
            let j = choose|j: int| 0 <= j < init.len() && (#[trigger] init[j]).0 == k;
            assert(init[j] == pairs[j]);
        }
    }
}

/// Whether `v` is an object with a member named `k`.
pub open spec fn has_member(v: JsonV, k: Seq<char>) -> bool {
    match v {
        JsonV::Object(o) => exists|j: int| 0 <= j < o.len() && (#[trigger] o[j]).0 == k,
        _ => false,
    }
}

/// For a list, the fields `--fields` accepts are the top-level keys of its
/// object items: a name is observed exactly when some object item has a
/// member of that name.
pub proof fn lemma_observed_list_fields(items: Seq<JsonV>, k: Seq<char>)
    ensures
        observed_fields(Shape::List, JsonV::Array(items)) == Some(item_keys(items)),
        item_keys(items).contains(k) <==> exists|i: int| 0 <= i < items.len() && has_member(#[trigger] items[i], k),
    decreases items.len(),
{
    if items.len() > 0 {
        let init = items.drop_last();
        let n = items.len() - 1;
        lemma_observed_list_fields(init, k);
        assert(items[n] == items.last());
        if let JsonV::Object(o) = items.last() {
            lemma_add_keys(item_keys(init), o, k);
        }
        if exists|i: int| 0 <= i < items.len() && has_member(#[trigger] items[i], k) {
            let i = choose|i: int| 0 <= i < items.len() && has_member(#[trigger] items[i], k);
            if i < n {
                assert(init[i] == items[i]);
            }
        }
        if exists|i: int| 0 <= i < init.len() && has_member(#[trigger] init[i], k) {
            let i = choose|i: int| 0 <= i < init.len() && has_member(#[trigger] init[i], k);
            assert(init[i] == items[i]);
        }
    }
}

// ---------------------------------------------------------------------------
// JSON string literals.

/// The value of a hexadecimal digit.
pub open spec fn hex_value(c: char) -> Option<int> {
    if '0' <= c && c <= '9' {
        Some(c as int - 48)
    } else if 'a' <= c && c <= 'f' {
        Some(c as int - 87)
    } else if 'A' <= c && c <= 'F' {
        Some(c as int - 55)
    } else {
        None
    }
}

/// The number that four hexadecimal digits spell.
pub open spec fn hex4(t: Seq<char>) -> Option<int> {
    match (hex_value(t[0]), hex_value(t[1]), hex_value(t[2]), hex_value(t[3])) {
        (Some(a), Some(b), Some(c), Some(d)) => Some(4096 * a + 256 * b + 16 * c + d),
        _ => None,
    }
}

/// The character a one-letter escape (`\"`, `\\`, `\/`, `\b`, `\f`, `\n`,
/// `\r`, `\t`) stands for.
pub open spec fn short_escape(e: char) -> Option<char> {
    if e == '"' {
        Some('"')
    } else if e == '\\' {
        Some('\\')
    } else if e == '/' {
        Some('/')
    } else if e == 'b' {
        Some('\u{8}')
    } else if e == 'f' {
        Some('\u{c}')
    } else if e == 'n' {
        Some('\n')
    } else if e == 'r' {
        Some('\r')
    } else if e == 't' {
        Some('\t')
    } else {
        None
    }
}

/// How a JSON reader reads the text between the quotes of a string literal
/// (RFC 8259, section 7): `None` where the text is not such a string (a bare
/// quote, a raw control character, an unknown escape); escapes of UTF-16
/// surrogates are not read here.
pub open spec fn json_string_body(t: Seq<char>) -> Option<Seq<char>>
    decreases t.len(),
{
    if t.len() == 0 {
        Some(Seq::empty())
    } else if t[0] == '"' || (t[0] as int) < 32 {
        None
    } else if t[0] != '\\' {
        match json_string_body(t.drop_first()) {
            Some(u) => Some(seq![t[0]] + u),
            None => None,
        }
    } else if t.len() < 2 {
        None
    } else {
        match short_escape(t[1]) {
            Some(c) => match json_string_body(t.subrange(2, t.len() as int)) {
                Some(u) => Some(seq![c] + u),
                None => None,
            },
            None => if t[1] == 'u' && t.len() >= 6 {
                match hex4(t.subrange(2, 6)) {
                    Some(v) => if v < 0xD800 || v > 0xDFFF {
                        match json_string_body(t.subrange(6, t.len() as int)) {
                            Some(u) => Some(seq![v as char] + u),
                            None => None,
                        }
                    } else {
                        None
                    },
                    None => None,
                }
            } else {
                None
            },
        }
    }
}

pub proof fn lemma_escaped_front(c: char, s: Seq<char>)
    ensures
        escaped(seq![c] + s) == esc(c) + escaped(s),
    decreases s.len(),
{
    if s.len() == 0 {
        assert(seq![c] + s =~= seq![c]);
        assert((seq![c] + s).drop_last() =~= Seq::<char>::empty());
        assert(escaped(Seq::<char>::empty()) =~= Seq::<char>::empty());
        assert(esc(c) + escaped(s) =~= esc(c));
    } else {
        lemma_escaped_front(c, s.drop_last());
        assert((seq![c] + s).drop_last() =~= seq![c] + s.drop_last());
        assert((seq![c] + s).last() == s.last());
        assert(esc(c) + escaped(s) =~= esc(c) + escaped(s.drop_last()) + esc(s.last()));
    }
}

pub proof fn lemma_hex_digit(d: int)
    requires
        0 <= d < 16,
    ensures
        hex_value(hex_digit(d)) == Some(d),
{
}

/// Reading one written character and then the rest.
proof fn lemma_read_esc(c: char, t: Seq<char>)
    ensures
        json_string_body(esc(c) + t) == match json_string_body(t) {
            Some(u) => Some(seq![c] + u),
            None => None::<Seq<char>>,
        },
{
    let w = esc(c) + t;
    if c == '"' || c == '\\' || c == '\u{8}' || c == '\t' || c == '\n' || c == '\u{c}' || c == '\r' {
        assert(w.subrange(2, w.len() as int) =~= t);
    } else if (c as int) < 32 {
        let n = c as int;
        lemma_hex_digit(n / 16);
        lemma_hex_digit(n % 16);
        assert(w.subrange(2, 6) =~= seq!['0', '0', hex_digit(n / 16), hex_digit(n % 16)]);
        assert(hex4(w.subrange(2, 6)) == Some(16 * (n / 16) + n % 16));
        assert(16 * (n / 16) + n % 16 == n);
        assert(w.subrange(6, w.len() as int) =~= t);
        assert((n as char) == c);
    } else {
        assert(w.drop_first() =~= t);
    }
}

/// JSON strings are written so that a JSON reader reads them back: the text
/// between the quotes of the literal of `s` reads as `s`. So it holds no bare
/// quote before the closing one, and no raw control character.
pub proof fn lemma_string_literal_reads_back(s: Seq<char>)
    ensures
        json_string_body(escaped(s)) == Some(s),
        quoted(s) == seq!['"'] + escaped(s) + seq!['"'],
        compact(JsonV::Str(s)) == quoted(s),
        pretty(JsonV::Str(s), 0) == quoted(s),
    decreases s.len(),
{
    if s.len() == 0 {
        assert(escaped(s) =~= Seq::<char>::empty());
    } else {
        lemma_string_literal_reads_back(s.drop_first());
        lemma_escaped_front(s[0], s.drop_first());
        assert(seq![s[0]] + s.drop_first() =~= s);
        lemma_read_esc(s[0], escaped(s.drop_first()));
    }
}

/// The size of a tally is the sum of the entries' sizes: nothing for no
/// entry, an entry's own size for one, and the sum of the parts for two
/// lists one after the other.
pub proof fn lemma_total_size_sums(a: Seq<(u64, Option<i64>)>, b: Seq<(u64, Option<i64>)>, x: (u64, Option<i64>))
    ensures
        total_size(Seq::empty()) == 0,
        total_size(seq![x]) == x.0,
        total_size(a + b) == total_size(a) + total_size(b),
    decreases b.len(),
{
    assert(seq![x].drop_last() =~= Seq::<(u64, Option<i64>)>::empty());
    if b.len() == 0 {
        assert(a + b =~= a);
    } else {
        lemma_total_size_sums(a, b.drop_last(), x);
        assert((a + b).drop_last() =~= a + b.drop_last());
        assert((a + b).last() == b.last());
    }
}

/// For a single record, the fields `--fields` accepts are its top-level
/// member names.
pub proof fn lemma_observed_record_fields(shape: Shape, o: Seq<(Seq<char>, JsonV)>, k: Seq<char>)
    requires
        shape != Shape::List,
    ensures
        observed_fields(shape, JsonV::Object(o)) matches Some(known)
            && (known.contains(k) <==> exists|j: int| 0 <= j < o.len() && (#[trigger] o[j]).0 == k),
{
    lemma_add_keys(Seq::empty(), o, k);
}

} // verus!
