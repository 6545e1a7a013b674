//! Sequences of key/value pairs read as maps: the first entry for a key wins.
use vstd::prelude::*;

verus! {

/// `i` is the first position whose key is `k`.
pub open spec fn is_first<K, V>(e: Seq<(K, V)>, k: K, i: int) -> bool {
    &&& 0 <= i < e.len()
    &&& e[i].0 == k
    &&& forall|j: int| 0 <= j < i ==> e[j].0 != k
}

/// The first position whose key is `k`, or -1 when no entry has that key.
pub open spec fn first_index<K, V>(e: Seq<(K, V)>, k: K) -> int {
    if exists|i: int| is_first(e, k, i) {
        choose|i: int| is_first(e, k, i)
    } else {
        -1
    }
}

/// The value stored under `k`, if any.
pub open spec fn lookup<K, V>(e: Seq<(K, V)>, k: K) -> Option<V> {
    let i = first_index(e, k);
    if 0 <= i {
        Some(e[i].1)
    } else {
        None
    }
}

/// `e` with the value under `k` replaced by `v`, or with `(k, v)` appended.
pub open spec fn upsert<K, V>(e: Seq<(K, V)>, k: K, v: V) -> Seq<(K, V)> {
    let i = first_index(e, k);
    if 0 <= i {
        e.update(i, (k, v))
    } else {
        e.push((k, v))
    }
}

/// The amount stored under `k`, zero when absent.
pub open spec fn amount_of<K>(e: Seq<(K, i128)>, k: K) -> int {
    match lookup(e, k) {
        Some(x) => x as int,
        None => 0,
    }
}

/// `e` with `amount` added to the amount stored under `k`.
pub open spec fn add_amount<K>(e: Seq<(K, i128)>, k: K, amount: i128) -> Seq<(K, i128)> {
    upsert(e, k, (amount_of(e, k) + amount) as i128)
}

/// A first position found by a scan is the one `first_index` names.
pub proof fn lemma_first_found<K, V>(e: Seq<(K, V)>, k: K, i: int)
    requires
        is_first(e, k, i),
    ensures
        first_index(e, k) == i,
{
    let c = choose|c: int| is_first(e, k, c);
    assert(is_first(e, k, c));
    if c < i {
        assert(e[c].0 != k);
    } else if c > i {
        assert(e[i].0 != k);
    }
}

/// When no entry has key `k`, `first_index` is -1.
pub proof fn lemma_first_absent<K, V>(e: Seq<(K, V)>, k: K)
    requires
        forall|j: int| 0 <= j < e.len() ==> e[j].0 != k,
    ensures
        first_index(e, k) == -1,
{
    if exists|i: int| is_first(e, k, i) {
        let c = choose|c: int| is_first(e, k, c);
        assert(e[c].0 == k);
    }
}

/// A key held at some position has a first position.
pub proof fn lemma_first_present<K, V>(e: Seq<(K, V)>, k: K, i: int)
    requires
        0 <= i < e.len(),
        e[i].0 == k,
    ensures
        0 <= first_index(e, k) <= i,
        is_first(e, k, first_index(e, k)),
    decreases i,
{
    if forall|j: int| 0 <= j < i ==> e[j].0 != k {
        lemma_first_found(e, k, i);
    } else {
        let j = choose|j: int| 0 <= j < i && e[j].0 == k;
        lemma_first_present(e, k, j);
    }
}

/// When `first_index` is -1, no entry has key `k`.
pub proof fn lemma_first_index_none<K, V>(e: Seq<(K, V)>, k: K)
    requires
        first_index(e, k) == -1,
    ensures
        forall|j: int| 0 <= j < e.len() ==> e[j].0 != k,
{
    assert forall|j: int| 0 <= j < e.len() implies e[j].0 != k by {
        if e[j].0 == k {
            lemma_first_present(e, k, j);
        }
    }
}

/// After storing `v` under `k`, looking up `k` gives `v`.
pub proof fn lemma_lookup_upsert_same<K, V>(e: Seq<(K, V)>, k: K, v: V)
    ensures
        lookup(upsert(e, k, v), k) == Some(v),
{
    let i = first_index(e, k);
    let e2 = upsert(e, k, v);
    lemma_first_index_range(e, k);
    if 0 <= i {
        assert(is_first(e2, k, i));
        lemma_first_found(e2, k, i);
    } else {
        lemma_first_index_none(e, k);
        assert(is_first(e2, k, e.len() as int));
        lemma_first_found(e2, k, e.len() as int);
    }
}

/// Storing under `k` leaves the lookup of any other key unchanged.
pub proof fn lemma_lookup_upsert_other<K, V>(e: Seq<(K, V)>, k: K, v: V, k2: K)
    requires
        k2 != k,
    ensures
        lookup(upsert(e, k, v), k2) == lookup(e, k2),
{
    let i = first_index(e, k);
    let e2 = upsert(e, k, v);
    lemma_first_index_range(e, k);
    lemma_first_index_range(e, k2);
    let j = first_index(e, k2);
    if 0 <= j {
        assert(j != i);
        assert(is_first(e2, k2, j));
        lemma_first_found(e2, k2, j);
    } else {
        lemma_first_index_none(e, k2);
        assert forall|m: int| 0 <= m < e2.len() implies e2[m].0 != k2 by {
            if m < e.len() && m != i {
                assert(e2[m] == e[m]);
            }
        }
        lemma_first_absent(e2, k2);
    }
}

/// `first_index` is -1 or a position holding key `k`.
pub proof fn lemma_first_index_range<K, V>(e: Seq<(K, V)>, k: K)
    ensures
        first_index(e, k) == -1 || is_first(e, k, first_index(e, k)),
{
}

/// The sum of `f` over the values of `e`.
pub open spec fn sum_of<K, V>(e: Seq<(K, V)>, f: spec_fn(V) -> int) -> int
    decreases e.len(),
{
    if e.len() == 0 {
        0
    } else {
        sum_of(e.drop_last(), f) + f(e.last().1)
    }
}

/// An amount read as an integer.
pub open spec fn amount_fn() -> spec_fn(i128) -> int {
    |v: i128| v as int
}

/// The sum of the amounts of `e`.
pub open spec fn sum_amounts<K>(e: Seq<(K, i128)>) -> int {
    sum_of(e, amount_fn())
}

/// Appending a pair adds its value to the sum.
pub proof fn lemma_sum_push<K, V>(e: Seq<(K, V)>, p: (K, V), f: spec_fn(V) -> int)
    ensures
        sum_of(e.push(p), f) == sum_of(e, f) + f(p.1),
{
    assert(e.push(p).drop_last() =~= e);
}

/// Replacing the pair at `i` changes the sum by the difference of the values.
pub proof fn lemma_sum_update<K, V>(e: Seq<(K, V)>, i: int, p: (K, V), f: spec_fn(V) -> int)
    requires
        0 <= i < e.len(),
    ensures
        sum_of(e.update(i, p), f) == sum_of(e, f) - f(e[i].1) + f(p.1),
    decreases e.len(),
{
    let u = e.update(i, p);
    if i == e.len() - 1 {
        assert(u.drop_last() =~= e.drop_last());
    } else {
        assert(u.drop_last() =~= e.drop_last().update(i, p));
        lemma_sum_update(e.drop_last(), i, p, f);
    }
}

/// Storing `v` under `k` replaces the value stored there, if any, in the sum.
pub proof fn lemma_sum_upsert<K, V>(e: Seq<(K, V)>, k: K, v: V, f: spec_fn(V) -> int)
    ensures
        sum_of(upsert(e, k, v), f) == sum_of(e, f) + f(v) - match lookup(e, k) {
            Some(x) => f(x),
            None => 0,
        },
{
    lemma_first_index_range(e, k);
    let i = first_index(e, k);
    if 0 <= i {
        lemma_sum_update(e, i, (k, v), f);
    } else {
        lemma_sum_push(e, (k, v), f);
    }
}

/// Adding `amount` under `k` adds `amount` to the sum of the amounts.
pub proof fn lemma_sum_add_amount<K>(e: Seq<(K, i128)>, k: K, amount: i128)
    requires
        i128::MIN <= amount_of(e, k) + amount <= i128::MAX,
    ensures
        sum_amounts(add_amount(e, k, amount)) == sum_amounts(e) + amount,
{
    lemma_sum_upsert(e, k, (amount_of(e, k) + amount) as i128, amount_fn());
}

/// With values of `f` never negative, the sum of a prefix is at most the sum.
pub proof fn lemma_sum_prefix<K, V>(e: Seq<(K, V)>, n: int, f: spec_fn(V) -> int)
    requires
        0 <= n <= e.len(),
        forall|i: int| 0 <= i < e.len() ==> 0 <= f(#[trigger] e[i].1),
    ensures
        0 <= sum_of(e.take(n), f) <= sum_of(e, f),
    decreases e.len(),
{
    if n == e.len() {
        assert(e.take(n) =~= e);
        if e.len() > 0 {
            lemma_sum_prefix(e.drop_last(), e.len() - 1, f);
            assert(e.drop_last().take(e.len() - 1) =~= e.drop_last());
            assert(0 <= f(e[e.len() - 1].1));
        }
    } else {
        lemma_sum_prefix(e.drop_last(), n, f);
        assert(e.drop_last().take(n) =~= e.take(n));
        assert(0 <= f(e[e.len() - 1].1));
    }
}

/// The sum over a prefix one longer adds the next value.
pub proof fn lemma_sum_take_next<K, V>(e: Seq<(K, V)>, n: int, f: spec_fn(V) -> int)
    requires
        0 <= n < e.len(),
    ensures
        sum_of(e.take(n + 1), f) == sum_of(e.take(n), f) + f(e[n].1),
{
    assert(e.take(n + 1).drop_last() =~= e.take(n));
}

/// An amount looked up in a list whose amounts lie in `[0, bound]` lies there too.
pub proof fn lemma_amount_bounded<K>(e: Seq<(K, i128)>, k: K, bound: int)
    requires
        forall|i: int| 0 <= i < e.len() ==> 0 <= #[trigger] e[i].1 <= bound,
        0 <= bound,
    ensures
        0 <= amount_of(e, k) <= bound,
{
    lemma_first_index_range(e, k);
}

} // verus!
