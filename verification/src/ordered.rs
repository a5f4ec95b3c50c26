//! Ascending keyed lists: the order of keys (`seq_lt`), lookup by key, and
//! why the ordered insertion `put` makes the result depend only on the last
//! value given for each key.
use vstd::prelude::*;
use crate::text::{has_at_pos, lemma_pos_of_bound, pos_of, put, seq_lt};

verus! {

/// The keys strictly ascend.
pub open spec fn keys_ascending<V>(e: Seq<(Seq<char>, V)>) -> bool {
    forall|i: int, j: int| 0 <= i < j < e.len() ==> seq_lt(#[trigger] e[i].0, #[trigger] e[j].0)
}

/// The value of the last entry with key `k`.
pub open spec fn find<V>(e: Seq<(Seq<char>, V)>, k: Seq<char>) -> Option<V>
    decreases e.len(),
{
    if e.len() == 0 {
        None
    } else if e.last().0 == k {
        Some(e.last().1)
    } else {
        find(e.drop_last(), k)
    }
}

pub proof fn lemma_seq_lt_irreflexive(a: Seq<char>)
    ensures
        !seq_lt(a, a),
    decreases a.len(),
{
    if a.len() > 0 {
        lemma_seq_lt_irreflexive(a.drop_first());
    }
}

pub proof fn lemma_seq_lt_transitive(a: Seq<char>, b: Seq<char>, c: Seq<char>)
    requires
        seq_lt(a, b),
        seq_lt(b, c),
    ensures
        seq_lt(a, c),
    decreases a.len(),
{
    if a.len() > 0 && b.len() > 0 && c.len() > 0 && a[0] == b[0] && b[0] == c[0] {
        lemma_seq_lt_transitive(a.drop_first(), b.drop_first(), c.drop_first());
    }
}

pub proof fn lemma_seq_lt_total(a: Seq<char>, b: Seq<char>)
    requires
        a != b,
    ensures
        seq_lt(a, b) || seq_lt(b, a),
    decreases a.len(),
{
    if a.len() > 0 && b.len() > 0 && a[0] == b[0] {
        if a.drop_first() == b.drop_first() {
            assert(a =~= seq![a[0]] + a.drop_first());
            assert(b =~= seq![b[0]] + b.drop_first());
        }
        lemma_seq_lt_total(a.drop_first(), b.drop_first());
    } else if a.len() == 0 && b.len() == 0 {
        assert(a =~= b);
    }
}

/// The order is strict: a key is below another only when they differ, and
/// never both ways.
pub proof fn lemma_seq_lt_strict(a: Seq<char>, b: Seq<char>)
    requires
        seq_lt(a, b),
    ensures
        a != b,
        !seq_lt(b, a),
{
    lemma_seq_lt_irreflexive(a);
    if seq_lt(b, a) {
        lemma_seq_lt_transitive(a, b, a);
    }
}

/// In an ascending list, looking up an entry's key finds that entry.
pub proof fn lemma_find_entry<V>(e: Seq<(Seq<char>, V)>, i: int)
    requires
        keys_ascending(e),
        0 <= i < e.len(),
    ensures
        find(e, e[i].0) == Some(e[i].1),
    decreases e.len(),
{
    if i < e.len() - 1 {
        lemma_seq_lt_strict(e[i].0, e.last().0);
        assert(e.drop_last()[i] == e[i]);
        lemma_find_entry(e.drop_last(), i);
    }
}

/// A key that is found belongs to an entry with the found value.
pub proof fn lemma_find_some<V>(e: Seq<(Seq<char>, V)>, k: Seq<char>)
    requires
        find(e, k) is Some,
    ensures
        exists|i: int| 0 <= i < e.len() && e[i].0 == k && e[i].1 == find(e, k)->0,
    decreases e.len(),
{
    if e.last().0 != k {
        lemma_find_some(e.drop_last(), k);
        let i = choose|i: int| 0 <= i < e.drop_last().len() && e.drop_last()[i].0 == k && e.drop_last()[i].1 == find(e.drop_last(), k)->0;
        assert(e[i] == e.drop_last()[i]);
    } else {
        assert(e[e.len() - 1] == e.last());
    }
}

/// In an ascending list, a key is found exactly when some entry has it, with
/// that entry's value.
pub proof fn lemma_find_ascending<V>(e: Seq<(Seq<char>, V)>, k: Seq<char>)
    requires
        keys_ascending(e),
    ensures
        find(e, k) is None <==> forall|i: int| 0 <= i < e.len() ==> e[i].0 != k,
        forall|i: int| 0 <= i < e.len() && e[i].0 == k ==> find(e, k) == Some(e[i].1),
{
    if find(e, k) is Some {
        lemma_find_some(e, k);
    }
    assert forall|i: int| 0 <= i < e.len() && e[i].0 == k implies find(e, k) == Some(e[i].1) by {
        lemma_find_entry(e, i);
    }
}

/// Ordered insertion keeps the keys ascending, and afterwards `k` is found
/// with `v` while every other key is found as before.
pub proof fn lemma_put<V>(e: Seq<(Seq<char>, V)>, k: Seq<char>, v: V)
    requires
        keys_ascending(e),
    ensures
        keys_ascending(put(e, k, v)),
        forall|q: Seq<char>| #[trigger] find(put(e, k, v), q) == if q == k { Some(v) } else { find(e, q) },
{
    let p = pos_of(e, k) as int;
    lemma_pos_of_bound(e, k);
    let r = put(e, k, v);
    if has_at_pos(e, k) {
        assert(r == e.update(p, (k, v)));
        assert forall|i: int, j: int| 0 <= i < j < r.len() implies seq_lt(#[trigger] r[i].0, #[trigger] r[j].0) by {
            assert(r[i].0 == e[i].0);
            assert(r[j].0 == e[j].0);
        }
        assert forall|q: Seq<char>| #[trigger] find(r, q) == if q == k { Some(v) } else { find(e, q) } by {
            lemma_find_ascending(r, q);
            lemma_find_ascending(e, q);
            if q == k {
                assert(r[p] == (k, v));
            } else {
                assert forall|i: int| 0 <= i < e.len() implies (e[i].0 == q <==> r[i].0 == q) && (e[i].0 == q ==> r[i] == e[i]) by {
                    if i == p {
                        assert(r[i].0 == k);
                    }
                }
                if find(e, q) is Some {
                    let i = choose|i: int| 0 <= i < e.len() && e[i].0 == q;
                    assert(r[i] == e[i]);
                }
                if find(r, q) is Some {
                    let i = choose|i: int| 0 <= i < r.len() && r[i].0 == q;
                    assert(e[i].0 == q);
                }
            }
        }
    } else {
        assert(r == e.insert(p, (k, v)));
        if p < e.len() {
            assert(e[p].0 != k);
            lemma_seq_lt_total(e[p].0, k);
        }
        assert forall|i: int, j: int| 0 <= i < j < r.len() implies seq_lt(#[trigger] r[i].0, #[trigger] r[j].0) by {
            if j < p {
                assert(r[i] == e[i] && r[j] == e[j]);
            } else if j == p {
                assert(r[i] == e[i]);
            } else if i < p {
                assert(r[i] == e[i] && r[j] == e[j - 1]);
            } else if i == p {
                assert(r[j] == e[j - 1]);
                if j - 1 > p {
                    lemma_seq_lt_transitive(k, e[p].0, e[j - 1].0);
                }
            } else {
                assert(r[i] == e[i - 1] && r[j] == e[j - 1]);
            }
        }
        assert forall|q: Seq<char>| #[trigger] find(r, q) == if q == k { Some(v) } else { find(e, q) } by {
            lemma_find_ascending(r, q);
            lemma_find_ascending(e, q);
            if q == k {
                assert(r[p] == (k, v));
            } else {
                if find(e, q) is Some {
                    let i = choose|i: int| 0 <= i < e.len() && e[i].0 == q;
                    if i < p {
                        assert(r[i] == e[i]);
                    } else {
                        assert(r[i + 1] == e[i]);
                    }
                }
                if find(r, q) is Some {
                    let i = choose|i: int| 0 <= i < r.len() && r[i].0 == q;
                    if i < p {
                        assert(e[i] == r[i]);
                    } else if i > p {
                        assert(e[i - 1] == r[i]);
                    }
                }
            }
        }
    }
}

/// Two ascending lists in which every key is found with the same value are
/// the same list.
pub proof fn lemma_ascending_unique<V>(a: Seq<(Seq<char>, V)>, b: Seq<(Seq<char>, V)>)
    requires
        keys_ascending(a),
        keys_ascending(b),
        forall|q: Seq<char>| #[trigger] find(a, q) == find(b, q),
    ensures
        a == b,
    decreases a.len(),
{
    if a.len() == 0 {
        if b.len() > 0 {
            lemma_find_entry(b, 0);
            assert(find(a, b[0].0) == find(b, b[0].0));
        }
        assert(a =~= b);
    } else {
        if b.len() == 0 {
            lemma_find_entry(a, 0);
            assert(find(a, a[0].0) == find(b, a[0].0));
        }
        let n = a.len() - 1;
        let m = b.len() - 1;
        let ka = a[n].0;
        let kb = b[m].0;
        lemma_find_entry(a, n);
        lemma_find_entry(b, m);
        assert(find(a, ka) == find(b, ka));
        assert(find(a, kb) == find(b, kb));
        lemma_find_ascending(a, kb);
        lemma_find_ascending(b, ka);
        if ka != kb {
            let j = choose|j: int| 0 <= j < b.len() && b[j].0 == ka;
            let i = choose|i: int| 0 <= i < a.len() && a[i].0 == kb;
            assert(j != m);
            assert(i != n);
            assert(seq_lt(b[j].0, b[m].0));
            assert(seq_lt(a[i].0, a[n].0));
            lemma_seq_lt_strict(ka, kb);
        }
        assert(a[n] == b[m]);
        let a1 = a.drop_last();
        let b1 = b.drop_last();
        assert forall|q: Seq<char>| #[trigger] find(a1, q) == find(b1, q) by {
            assert(find(a, q) == find(b, q));
            if q == ka {
                lemma_find_ascending(a1, q);
                lemma_find_ascending(b1, q);
                assert forall|i: int| 0 <= i < a1.len() implies a1[i].0 != q by {
                    assert(a1[i] == a[i]);
                    lemma_seq_lt_strict(a[i].0, a[n].0);
                }
                assert forall|i: int| 0 <= i < b1.len() implies b1[i].0 != q by {
                    assert(b1[i] == b[i]);
                    lemma_seq_lt_strict(b[i].0, b[m].0);
                }
            }
        }
        assert(keys_ascending(a1)) by {
            assert forall|i: int, j: int| 0 <= i < j < a1.len() implies seq_lt(#[trigger] a1[i].0, #[trigger] a1[j].0) by {
                assert(a1[i] == a[i] && a1[j] == a[j]);
            }
        }
        assert(keys_ascending(b1)) by {
            assert forall|i: int, j: int| 0 <= i < j < b1.len() implies seq_lt(#[trigger] b1[i].0, #[trigger] b1[j].0) by {
                assert(b1[i] == b[i] && b1[j] == b[j]);
            }
        }
        lemma_ascending_unique(a1, b1);
        assert(a =~= a1.push(a[n]));
        assert(b =~= b1.push(b[m]));
    }
}

} // verus!
