//! Sums over finite maps of amounts.

use vstd::prelude::*;
use crate::uint::{pow2_256, U256};

verus! {

/// The sum of the amounts that a finite map holds.
pub open spec fn total<K>(m: Map<K, nat>) -> nat
    decreases m.dom().len(),
    when m.dom().finite()
{
    if m.dom().len() == 0 {
        0
    } else {
        let k = m.dom().choose();
        m[k] + total(m.remove(k))
    }
}

/// The amount bound to `k`, or zero where `k` is not bound.
pub open spec fn amount_of<K>(m: Map<K, nat>, k: K) -> nat {
    if m.contains_key(k) {
        m[k]
    } else {
        0
    }
}

/// The numbers that a map of 256-bit values holds.
pub open spec fn amounts<K>(m: Map<K, U256>) -> Map<K, nat> {
    Map::new(|k: K| m.contains_key(k), |k: K| m[k]@)
}

/// Writing a value into a map of 256-bit values writes its number into the
/// map of numbers.
pub proof fn lemma_amounts_insert<K>(m: Map<K, U256>, k: K, v: U256)
    ensures
        amounts(m.insert(k, v)) == amounts(m).insert(k, v@),
        m.dom().finite() ==> amounts(m).dom().finite(),
        amounts(m).dom() == m.dom(),
{
    assert(amounts(m.insert(k, v)) =~= amounts(m).insert(k, v@));
    assert(amounts(m).dom() =~= m.dom());
}

/// A sum is the amount under any one key plus the sum of the rest.
pub proof fn lemma_total_remove<K>(m: Map<K, nat>, k: K)
    requires
        m.dom().finite(),
        m.contains_key(k),
    ensures
        total(m) == m[k] + total(m.remove(k)),
    decreases m.dom().len(),
{
    let c = m.dom().choose();
    if c != k {
        lemma_total_remove(m.remove(c), k);
        lemma_total_remove(m.remove(k), c);
        assert(m.remove(c).remove(k) =~= m.remove(k).remove(c));
    }
}

/// Writing `v` under `k` changes the sum by the difference between `v` and
/// what `k` held.
pub proof fn lemma_total_insert<K>(m: Map<K, nat>, k: K, v: nat)
    requires
        m.dom().finite(),
    ensures
        total(m.insert(k, v)) == total(m) - amount_of(m, k) + v,
{
    lemma_total_remove(m.insert(k, v), k);
    if m.contains_key(k) {
        lemma_total_remove(m, k);
        assert(m.insert(k, v).remove(k) =~= m.remove(k));
    } else {
        assert(m.insert(k, v).remove(k) =~= m);
    }
}

/// No single amount exceeds the sum.
pub proof fn lemma_total_bounds<K>(m: Map<K, nat>, k: K)
    requires
        m.dom().finite(),
    ensures
        amount_of(m, k) <= total(m),
{
    if m.contains_key(k) {
        lemma_total_remove(m, k);
    }
}

/// The amounts under two different keys together do not exceed the sum.
pub proof fn lemma_total_bounds_pair<K>(m: Map<K, nat>, a: K, b: K)
    requires
        m.dom().finite(),
        a != b,
    ensures
        amount_of(m, a) + amount_of(m, b) <= total(m),
{
    if m.contains_key(a) {
        lemma_total_remove(m, a);
        lemma_total_bounds(m.remove(a), b);
    } else {
        lemma_total_bounds(m, b);
    }
}

/// The sum of the amounts of a list of entries.
pub open spec fn seq_total<K>(entries: Seq<(K, U256)>) -> nat
    decreases entries.len(),
{
    if entries.len() == 0 {
        0
    } else {
        seq_total(entries.drop_last()) + entries.last().1@
    }
}

/// The sum of a list is at least the sum of each of its beginnings.
pub proof fn lemma_seq_total_prefix<K>(entries: Seq<(K, U256)>, n: int)
    requires
        0 <= n <= entries.len(),
    ensures
        seq_total(entries.subrange(0, n)) <= seq_total(entries),
    decreases entries.len(),
{
    if n < entries.len() {
        lemma_seq_total_prefix(entries.drop_last(), n);
        assert(entries.drop_last().subrange(0, n) =~= entries.subrange(0, n));
    } else {
        assert(entries.subrange(0, n) =~= entries);
    }
}

/// The amounts of a list of entries, added up; `None` where the sum does
/// not fit in 256 bits.
pub fn sum_entries<K>(entries: &Vec<(K, U256)>) -> (r: Option<U256>)
    ensures
        match r {
            Some(s) => s@ == seq_total(entries@),
            None => seq_total(entries@) >= pow2_256(),
        },
{
    let mut sum = U256::zero();
    let mut i: usize = 0;
    while i < entries.len()
        invariant
            i <= entries@.len(),
            sum@ == seq_total(entries@.subrange(0, i as int)),
        decreases entries@.len() - i,
    {
        proof {
            assert(entries@.subrange(0, i + 1).drop_last() =~= entries@.subrange(0, i as int));
        }
        sum = match sum.checked_add(entries[i].1) {
            Some(s) => s,
            None => {
                proof {
                    lemma_seq_total_prefix(entries@, i + 1);
                }
                return None;
            },
        };
        i += 1;
    }
    proof {
        assert(entries@.subrange(0, entries@.len() as int) =~= entries@);
    }
    Some(sum)
}

} // verus!
