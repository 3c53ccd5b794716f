//! The sum of the amounts in a finite map, and how it moves when one entry changes.

use vstd::prelude::*;

verus! {

/// The amount under `key`, where a missing key stands for zero.
pub open spec fn amount_at<K>(amounts: Map<K, nat>, key: K) -> nat {
    if amounts.dom().contains(key) {
        amounts[key]
    } else {
        0
    }
}

/// The sum of all amounts in a finite map (zero for an infinite one).
pub open spec fn sum_values<K>(amounts: Map<K, nat>) -> nat
    decreases amounts.dom().len(),
{
    if amounts.dom().finite() && amounts.dom().len() > 0 {
        let key = amounts.dom().choose();
        amounts[key] + sum_values(amounts.remove(key))
    } else {
        0
    }
}

/// Any one entry can be taken out of the sum: the order in which the sum walks the
/// keys does not matter.
pub proof fn lemma_sum_remove<K>(amounts: Map<K, nat>, key: K)
    requires
        amounts.dom().finite(),
        amounts.dom().contains(key),
    ensures
        sum_values(amounts) == amounts[key] + sum_values(amounts.remove(key)),
    decreases amounts.dom().len(),
{
    let first = amounts.dom().choose();
    if first != key {
        lemma_sum_remove(amounts.remove(first), key);
        lemma_sum_remove(amounts.remove(key), first);
        assert(amounts.remove(first).remove(key) == amounts.remove(key).remove(first));
    }
}

/// Writing `value` under `key` replaces that key's share of the sum.
pub proof fn lemma_sum_insert<K>(amounts: Map<K, nat>, key: K, value: nat)
    requires
        amounts.dom().finite(),
    ensures
        sum_values(amounts.insert(key, value)) == sum_values(amounts) - amount_at(amounts, key)
            + value,
{
    let written = amounts.insert(key, value);
    lemma_sum_remove(written, key);
    assert(written.remove(key) == amounts.remove(key));
    if amounts.dom().contains(key) {
        lemma_sum_remove(amounts, key);
    } else {
        assert(amounts.remove(key) == amounts);
    }
}

/// No single amount exceeds the sum.
pub proof fn lemma_sum_bounds_one<K>(amounts: Map<K, nat>, key: K)
    requires
        amounts.dom().finite(),
    ensures
        amount_at(amounts, key) <= sum_values(amounts),
{
    if amounts.dom().contains(key) {
        lemma_sum_remove(amounts, key);
    }
}

/// No two amounts under different keys together exceed the sum.
pub proof fn lemma_sum_bounds_two<K>(amounts: Map<K, nat>, first: K, second: K)
    requires
        amounts.dom().finite(),
        first != second,
    ensures
        amount_at(amounts, first) + amount_at(amounts, second) <= sum_values(amounts),
{
    if amounts.dom().contains(first) {
        lemma_sum_remove(amounts, first);
        lemma_sum_bounds_one(amounts.remove(first), second);
    } else {
        lemma_sum_bounds_one(amounts, second);
    }
}

} // verus!
