//! The sum of the balances that a finite map holds, and how it changes when
//! one entry of the map changes.

use vstd::prelude::*;

verus! {

/// The sum of all values of `m`; 0 where `m` is empty or not finite.
pub open spec fn total(m: Map<u64, u128>) -> nat
    decreases m.dom().len(),
{
    if m.dom().finite() && m.dom().len() > 0 {
        let k = m.dom().choose();
        m[k] as nat + total(m.remove(k))
    } else {
        0
    }
}

/// The value stored for `k`, and 0 where there is none.
pub open spec fn held(m: Map<u64, u128>, k: u64) -> u128 {
    if m.contains_key(k) {
        m[k]
    } else {
        0
    }
}

/// The empty map sums to 0.
pub proof fn lemma_total_empty()
    ensures
        total(Map::<u64, u128>::empty()) == 0,
{
}

/// Any entry can be split off the sum, not only the chosen one.
pub proof fn lemma_total_remove(m: Map<u64, u128>, k: u64)
    requires
        m.dom().finite(),
        m.contains_key(k),
    ensures
        total(m) == m[k] as nat + total(m.remove(k)),
    decreases m.dom().len(),
{
    let c = m.dom().choose();
    if c != k {
        lemma_total_remove(m.remove(c), k);
        lemma_total_remove(m.remove(k), c);
        assert(m.remove(c).remove(k) =~= m.remove(k).remove(c));
    }
}

/// Writing `v` at `k` replaces what `k` contributed before by `v`.
pub proof fn lemma_total_insert(m: Map<u64, u128>, k: u64, v: u128)
    requires
        m.dom().finite(),
    ensures
        total(m.insert(k, v)) == total(m) - held(m, k) + v,
{
    lemma_total_remove(m.insert(k, v), k);
    assert(m.insert(k, v).remove(k) =~= m.remove(k));
    if m.contains_key(k) {
        lemma_total_remove(m, k);
    } else {
        assert(m.remove(k) =~= m);
    }
}

/// No single entry exceeds the sum.
pub proof fn lemma_total_bounds_entry(m: Map<u64, u128>, k: u64)
    requires
        m.dom().finite(),
    ensures
        held(m, k) <= total(m),
{
    if m.contains_key(k) {
        lemma_total_remove(m, k);
    }
}

/// Two different entries together do not exceed the sum.
pub proof fn lemma_total_bounds_pair(m: Map<u64, u128>, a: u64, b: u64)
    requires
        m.dom().finite(),
        a != b,
    ensures
        held(m, a) + held(m, b) <= total(m),
{
    if m.contains_key(a) {
        lemma_total_remove(m, a);
        lemma_total_bounds_entry(m.remove(a), b);
    } else {
        lemma_total_bounds_entry(m, b);
    }
}

} // verus!
