//! The sum of the counters held in a finite map, and how it changes when one
//! entry is written. The ticket ledger's conservation laws are stated with it.

use vstd::prelude::*;

verus! {

/// The sum of all values of `m`; 0 for a map whose domain is not finite.
pub open spec fn total<K>(m: Map<K, nat>) -> nat
    decreases m.dom().len(),
    when m.dom().finite()
{
    if m.dom().len() == 0 {
        0
    } else {
        let k = m.dom().choose();
        m[k] + total(m.remove(k))
    }
}

/// The value under `k`, or 0 where `m` has no entry for `k`.
pub open spec fn count_at<K>(m: Map<K, nat>, k: K) -> nat {
    if m.contains_key(k) {
        m[k]
    } else {
        0
    }
}

/// An empty map sums to 0.
pub proof fn lemma_total_empty<K>()
    ensures
        total(Map::<K, nat>::empty()) == 0,
{
    assert(Map::<K, nat>::empty().dom() =~= Set::<K>::empty());
}

/// Any one entry can be split off the sum.
pub proof fn lemma_total_remove<K>(m: Map<K, nat>, k: K)
    requires
        m.dom().finite(),
        m.contains_key(k),
    ensures
        total(m) == m[k] + total(m.remove(k)),
    decreases m.dom().len(),
{
    let k0 = m.dom().choose();
    assert(m.dom().len() != 0) by {
        if m.dom().len() == 0 {
            m.dom().lemma_len0_is_empty();
        }
    }
    if k0 != k {
        lemma_total_remove(m.remove(k0), k);
        lemma_total_remove(m.remove(k), k0);
        assert(m.remove(k0).remove(k) =~= m.remove(k).remove(k0));
    }
}

/// Writing `v` under `k` replaces that key's share of the sum.
pub proof fn lemma_total_insert<K>(m: Map<K, nat>, k: K, v: nat)
    requires
        m.dom().finite(),
    ensures
        total(m.insert(k, v)) + count_at(m, k) == total(m) + v,
{
    let after = m.insert(k, v);
    lemma_total_remove(after, k);
    if m.contains_key(k) {
        lemma_total_remove(m, k);
        assert(after.remove(k) =~= m.remove(k));
    } else {
        assert(after.remove(k) =~= m);
    }
}

/// No single counter exceeds the sum.
pub proof fn lemma_count_le_total<K>(m: Map<K, nat>, k: K)
    requires
        m.dom().finite(),
    ensures
        count_at(m, k) <= total(m),
{
    if m.contains_key(k) {
        lemma_total_remove(m, k);
    }
}

} // verus!
