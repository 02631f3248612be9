use vstd::prelude::*;

use crate::custody::CustodyState;

verus! {

/// The sum of a run of mint amounts.
pub open spec fn sum_amounts(amounts: Seq<u64>) -> int
    decreases amounts.len(),
{
    if amounts.len() == 0 {
        0
    } else {
        sum_amounts(amounts.drop_last()) + amounts.last()
    }
}

/// Law: supply conservation over a run of mints. If a run of successful
/// mints of amounts a1..an takes the supply counter through the values
/// supplies[0..n] — each step growing it by exactly its amount, as
/// `mint_tokens` ensures — then the final supply is the initial supply plus
/// the sum of every amount.
pub proof fn lemma_supply_after_mints(supplies: Seq<int>, amounts: Seq<u64>)
    requires
        supplies.len() == amounts.len() + 1,
        forall|i: int| 0 <= i < amounts.len() ==> supplies[i + 1] == supplies[i] + amounts[i],
    ensures
        supplies.last() == supplies[0] + sum_amounts(amounts),
    decreases amounts.len(),
{
    if amounts.len() > 0 {
        let n = amounts.len() as int;
        lemma_supply_after_mints(supplies.drop_last(), amounts.drop_last());
        assert(supplies.drop_last().last() == supplies[n - 1]);
        assert(supplies.last() == supplies[n - 1] + amounts[n - 1]);
    }
}

/// Law: conservation invariant. In a well-formed custody state with a
/// created asset, the supply counter equals the sum of every balance in
/// the book, so a deposit or a withdrawal can move value around but never
/// create or destroy it.
pub proof fn lemma_supply_equals_balances(s: CustodyState)
    requires
        s.wf(),
    ensures
        (s.asset matches Some(a) ==> a.supply == s.book.total()),
{
}

} // verus!
