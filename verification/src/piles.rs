//! Arithmetic on rows of pile heights: totals and spare room.

use vstd::prelude::*;
use crate::snow::MAX_SNOW_PILE;

verus! {

/// Every height of the row lies in `0..=MAX_SNOW_PILE`.
pub open spec fn heights_wf(piles: Seq<int>) -> bool {
    forall|i: int| 0 <= i < piles.len() ==> 0 <= #[trigger] piles[i] <= MAX_SNOW_PILE
}

/// The amount of snow in a row of piles.
pub open spec fn total(piles: Seq<int>) -> int
    decreases piles.len(),
{
    if piles.len() == 0 {
        0
    } else {
        total(piles.drop_last()) + piles.last()
    }
}

/// The amount of snow that a row of piles can still take.
pub open spec fn spare(piles: Seq<int>) -> int {
    MAX_SNOW_PILE * piles.len() - total(piles)
}

/// Every pile of the row is full.
pub open spec fn saturated(piles: Seq<int>) -> bool {
    forall|i: int| 0 <= i < piles.len() ==> #[trigger] piles[i] == MAX_SNOW_PILE
}

/// Changing one pile changes the total by the difference of the two heights.
pub proof fn lemma_total_update(piles: Seq<int>, i: int, height: int)
    requires
        0 <= i < piles.len(),
    ensures
        total(piles.update(i, height)) == total(piles) - piles[i] + height,
    decreases piles.len(),
{
    let changed = piles.update(i, height);
    if i == piles.len() - 1 {
        assert(changed.drop_last() =~= piles.drop_last());
    } else {
        assert(changed.drop_last() =~= piles.drop_last().update(i, height));
        lemma_total_update(piles.drop_last(), i, height);
    }
}

/// Extending a stretch of a row by one pile adds that pile to its total.
pub proof fn lemma_total_extend(piles: Seq<int>, from: int, to: int)
    requires
        0 <= from <= to < piles.len(),
    ensures
        total(piles.subrange(from, to + 1)) == total(piles.subrange(from, to)) + piles[to],
{
    assert(piles.subrange(from, to + 1).drop_last() =~= piles.subrange(from, to));
}

/// A well-formed row holds between nothing and its capacity.
pub proof fn lemma_total_bounds(piles: Seq<int>)
    requires
        heights_wf(piles),
    ensures
        0 <= total(piles) <= MAX_SNOW_PILE * piles.len(),
        saturated(piles) <==> total(piles) == MAX_SNOW_PILE * piles.len(),
    decreases piles.len(),
{
    if piles.len() > 0 {
        let front = piles.drop_last();
        lemma_total_bounds(front);
        if saturated(piles) {
            assert forall|i: int| 0 <= i < front.len() implies #[trigger] front[i]
                == MAX_SNOW_PILE by {
                assert(front[i] == piles[i]);
            }
        }
        if total(piles) == MAX_SNOW_PILE * piles.len() {
            assert(saturated(front));
            assert forall|i: int| 0 <= i < piles.len() implies #[trigger] piles[i]
                == MAX_SNOW_PILE by {
                if i < front.len() {
                    assert(front[i] == piles[i]);
                }
            }
        }
    }
}

/// A row without snow has a total of nothing.
pub proof fn lemma_total_empty(piles: Seq<int>)
    requires
        forall|i: int| 0 <= i < piles.len() ==> piles[i] == 0,
    ensures
        total(piles) == 0,
    decreases piles.len(),
{
    if piles.len() > 0 {
        lemma_total_empty(piles.drop_last());
    }
}

/// A longer stretch of a well-formed row has at least as much spare room.
pub proof fn lemma_spare_grows(piles: Seq<int>, from: int, mid: int, to: int)
    requires
        heights_wf(piles),
        0 <= from <= mid <= to <= piles.len(),
    ensures
        0 <= spare(piles.subrange(from, mid)) <= spare(piles.subrange(from, to)),
    decreases to - mid,
{
    lemma_total_bounds(piles.subrange(from, mid));
    if mid < to {
        lemma_spare_grows(piles, from, mid, to - 1);
        lemma_total_extend(piles, from, to - 1);
    }
}

} // verus!
