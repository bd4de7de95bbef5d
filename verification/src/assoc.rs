//! Association lists: sequences of key-value pairs in which a lookup finds
//! the first pair with the key.

use vstd::prelude::*;

verus! {

/// The index of the first pair of `m` whose key is `k`, or `m.len()` where
/// no pair has that key.
pub open spec fn assoc_index_of<K, V>(m: Seq<(K, V)>, k: K) -> int
    decreases m.len(),
{
    if m.len() == 0 {
        0
    } else if m[0].0 == k {
        0
    } else {
        1 + assoc_index_of(m.drop_first(), k)
    }
}

/// Whether some pair of `m` has the key `k`.
pub open spec fn assoc_has<K, V>(m: Seq<(K, V)>, k: K) -> bool {
    assoc_index_of(m, k) < m.len()
}

/// The value of the first pair with the key `k`.
pub open spec fn assoc_get<K, V>(m: Seq<(K, V)>, k: K) -> Option<V> {
    if assoc_has(m, k) {
        Some(m[assoc_index_of(m, k)].1)
    } else {
        None
    }
}

/// The list after `k` was bound to `v`: the first pair with that key gets
/// the new value in place, a new key goes to the end.
pub open spec fn assoc_put<K, V>(m: Seq<(K, V)>, k: K, v: V) -> Seq<(K, V)> {
    if assoc_has(m, k) {
        m.update(assoc_index_of(m, k), (k, v))
    } else {
        m.push((k, v))
    }
}

/// The list that results from binding the first `n` of `pairs`, one after
/// the other, starting from the empty list.
pub open spec fn assoc_put_all<K, V>(pairs: Seq<(K, V)>, n: nat) -> Seq<(K, V)>
    decreases n,
{
    if n == 0 {
        Seq::empty()
    } else {
        assoc_put(assoc_put_all(pairs, (n - 1) as nat), pairs[n - 1].0, pairs[n - 1].1)
    }
}

/// The keys of the pairs, in order.
pub open spec fn assoc_keys<K, V>(m: Seq<(K, V)>) -> Seq<K> {
    Seq::new(m.len(), |i: int| m[i].0)
}

/// Whether no key occurs twice.
pub open spec fn distinct_keys<K, V>(m: Seq<(K, V)>) -> bool {
    forall|i: int, j: int| 0 <= i < j < m.len() ==> (#[trigger] m[i]).0 != (#[trigger] m[j]).0
}

/// `assoc_index_of` finds the first pair with the key, and none before it
/// has that key.
pub proof fn lemma_assoc_index_of<K, V>(m: Seq<(K, V)>, k: K)
    ensures
        0 <= assoc_index_of(m, k) <= m.len(),
        assoc_index_of(m, k) < m.len() ==> m[assoc_index_of(m, k)].0 == k,
        forall|j: int| 0 <= j < assoc_index_of(m, k) ==> (#[trigger] m[j]).0 != k,
    decreases m.len(),
{
    if m.len() > 0 && m[0].0 != k {
        let rest = m.drop_first();
        lemma_assoc_index_of(rest, k);
        assert forall|j: int| 0 <= j < assoc_index_of(m, k) implies (#[trigger] m[j]).0 != k by {
            if j > 0 {
                assert(m[j] == rest[j - 1]);
            }
        }
    }
}

/// An index whose pair has the key `k`, with no such pair before it, is the
/// one that `assoc_index_of` finds.
pub proof fn lemma_assoc_index_of_is<K, V>(m: Seq<(K, V)>, k: K, i: int)
    requires
        0 <= i <= m.len(),
        i < m.len() ==> m[i].0 == k,
        forall|j: int| 0 <= j < i ==> (#[trigger] m[j]).0 != k,
    ensures
        assoc_index_of(m, k) == i,
{
    lemma_assoc_index_of(m, k);
    let found = assoc_index_of(m, k);
    if found < i {
        assert(m[found].0 != k);
    }
}

/// Binding a key keeps the keys distinct.
pub proof fn lemma_assoc_put_distinct<K, V>(m: Seq<(K, V)>, k: K, v: V)
    requires
        distinct_keys(m),
    ensures
        distinct_keys(assoc_put(m, k, v)),
{
    lemma_assoc_index_of(m, k);
    let r = assoc_put(m, k, v);
    assert forall|i: int, j: int| 0 <= i < j < r.len() implies (#[trigger] r[i]).0 != (
    #[trigger] r[j]).0 by {
        if assoc_has(m, k) {
            assert(m[i].0 != m[j].0);
        } else {
            if j < m.len() {
                assert(m[i].0 != m[j].0);
            } else {
                assert(m[i].0 != k);
            }
        }
    }
}

/// Binding pairs whose keys are distinct, starting from the empty list,
/// yields the pairs themselves.
pub proof fn lemma_assoc_put_all_distinct<K, V>(pairs: Seq<(K, V)>, n: nat)
    requires
        distinct_keys(pairs),
        n <= pairs.len(),
    ensures
        assoc_put_all(pairs, n) == pairs.take(n as int),
    decreases n,
{
    if n == 0 {
        assert(assoc_put_all(pairs, n) =~= pairs.take(0));
    } else {
        lemma_assoc_put_all_distinct(pairs, (n - 1) as nat);
        let before = pairs.take(n - 1);
        let k = pairs[n - 1].0;
        assert forall|j: int| 0 <= j < before.len() implies (#[trigger] before[j]).0 != k by {
            assert(pairs[j].0 != pairs[n - 1].0);
        }
        lemma_assoc_index_of_is(before, k, before.len() as int);
        assert(before.push(pairs[n - 1]) =~= pairs.take(n as int));
    }
}

/// Binding pairs one after the other, starting from the empty list, never
/// yields a key twice.
pub proof fn lemma_assoc_put_all_keys_distinct<K, V>(pairs: Seq<(K, V)>, n: nat)
    ensures
        distinct_keys(assoc_put_all(pairs, n)),
    decreases n,
{
    if n > 0 {
        lemma_assoc_put_all_keys_distinct(pairs, (n - 1) as nat);
        lemma_assoc_put_distinct(
            assoc_put_all(pairs, (n - 1) as nat),
            pairs[n - 1].0,
            pairs[n - 1].1,
        );
    }
}

} // verus!
