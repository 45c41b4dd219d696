//! The sum of the amounts that a finite map holds, and how the sum moves when
//! one amount is set.

use vstd::prelude::*;

verus! {

/// The sum of all amounts in `amounts`, a map with finitely many keys.
pub open spec fn total<K>(amounts: Map<K, int>) -> int
    decreases amounts.dom().len(),
    when amounts.dom().finite()
{
    if amounts.dom().len() == 0 {
        0
    } else {
        let key = amounts.dom().choose();
        amounts[key] + total(amounts.remove(key))
    }
}

/// What `amounts` holds under `key`, and 0 where it holds nothing.
pub open spec fn amount_of<K>(amounts: Map<K, int>, key: K) -> int {
    if amounts.dom().contains(key) {
        amounts[key]
    } else {
        0
    }
}

/// No amount is negative.
pub open spec fn none_negative<K>(amounts: Map<K, int>) -> bool {
    forall|key: K| #[trigger] amounts.dom().contains(key) ==> amounts[key] >= 0
}

/// The sum is the amount under any one key plus the sum of the rest.
pub proof fn lemma_total_split<K>(amounts: Map<K, int>, key: K)
    requires
        amounts.dom().finite(),
        amounts.dom().contains(key),
    ensures
        total(amounts) == amounts[key] + total(amounts.remove(key)),
    decreases amounts.dom().len(),
{
    let chosen = amounts.dom().choose();
    if chosen != key {
        let rest = amounts.remove(chosen);
        lemma_total_split(rest, key);
        lemma_total_split(amounts.remove(key), chosen);
        assert(rest.remove(key) =~= amounts.remove(key).remove(chosen));
    }
}

/// Setting the amount under `key` moves the sum by the difference between
/// the new amount and the old one.
pub proof fn lemma_total_insert<K>(amounts: Map<K, int>, key: K, amount: int)
    requires
        amounts.dom().finite(),
    ensures
        total(amounts.insert(key, amount)) == total(amounts) - amount_of(amounts, key) + amount,
{
    let after = amounts.insert(key, amount);
    lemma_total_split(after, key);
    if amounts.dom().contains(key) {
        lemma_total_split(amounts, key);
        assert(after.remove(key) =~= amounts.remove(key));
    } else {
        assert(after.remove(key) =~= amounts);
    }
}

/// Where no amount is negative, neither is the sum.
pub proof fn lemma_total_not_negative<K>(amounts: Map<K, int>)
    requires
        amounts.dom().finite(),
        none_negative(amounts),
    ensures
        total(amounts) >= 0,
    decreases amounts.dom().len(),
{
    if amounts.dom().len() != 0 {
        let chosen = amounts.dom().choose();
        lemma_total_not_negative(amounts.remove(chosen));
    }
}

/// Where no amount is negative, no single amount exceeds the sum.
pub proof fn lemma_amount_within_total<K>(amounts: Map<K, int>, key: K)
    requires
        amounts.dom().finite(),
        none_negative(amounts),
    ensures
        0 <= amount_of(amounts, key) <= total(amounts),
{
    if amounts.dom().contains(key) {
        lemma_total_split(amounts, key);
        lemma_total_not_negative(amounts.remove(key));
    } else {
        lemma_total_not_negative(amounts);
    }
}

} // verus!
