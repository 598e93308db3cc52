//! The peak of a row of scores: the first place that holds the greatest one.

use vstd::prelude::*;
use crate::binary32::{
    is_nan, lemma_total_order_agrees_with_less_than, sign_negative, spec_less_than, total_order_key,
    total_order_less,
};

verus! {

/// Whether place `k` is the peak of `scores`: no score comes after the one at
/// `k` in the total order, and every score before place `k` comes strictly
/// before it. Of equal greatest scores the first is the peak.
pub open spec fn is_peak(scores: Seq<u32>, k: int) -> bool {
    &&& 0 <= k < scores.len()
    &&& forall|j: int|
        0 <= j < scores.len() ==> total_order_key(#[trigger] scores[j]) <= total_order_key(
            scores[k],
        )
    &&& forall|j: int|
        0 <= j < k ==> total_order_key(#[trigger] scores[j]) < total_order_key(scores[k])
}

/// The peak of `scores`. A row that is not empty has exactly one.
pub open spec fn peak_of(scores: Seq<u32>) -> int {
    choose|k: int| is_peak(scores, k)
}

/// A row has at most one peak.
pub proof fn lemma_peak_unique(scores: Seq<u32>, a: int, b: int)
    requires
        is_peak(scores, a),
        is_peak(scores, b),
    ensures
        a == b,
{
    if a < b {
        assert(total_order_key(scores[a]) < total_order_key(scores[b]));
        assert(total_order_key(scores[b]) <= total_order_key(scores[a]));
    }
    if b < a {
        assert(total_order_key(scores[b]) < total_order_key(scores[a]));
        assert(total_order_key(scores[a]) <= total_order_key(scores[b]));
    }
}

/// Every row that is not empty has a peak, and `peak_of` names it.
pub proof fn lemma_peak_exists(scores: Seq<u32>)
    requires
        scores.len() > 0,
    ensures
        is_peak(scores, peak_of(scores)),
    decreases scores.len(),
{
    if scores.len() == 1 {
        assert(is_peak(scores, 0));
    } else {
        let front = scores.drop_last();
        lemma_peak_exists(front);
        let k = peak_of(front);
        let last = scores.len() - 1;
        assert forall|j: int| 0 <= j < front.len() implies front[j] == scores[j] by {}
        if total_order_key(scores[k]) < total_order_key(scores[last]) {
            assert forall|j: int| 0 <= j < last implies total_order_key(#[trigger] scores[j])
                < total_order_key(scores[last]) by {
                assert(total_order_key(front[j]) <= total_order_key(front[k]));
            }
            assert(is_peak(scores, last));
        } else {
            assert forall|j: int| 0 <= j < scores.len() implies total_order_key(
                #[trigger] scores[j],
            ) <= total_order_key(scores[k]) by {
                if j < last {
                    assert(total_order_key(front[j]) <= total_order_key(front[k]));
                }
            }
            assert forall|j: int| 0 <= j < k implies total_order_key(#[trigger] scores[j])
                < total_order_key(scores[k]) by {
                assert(total_order_key(front[j]) < total_order_key(front[k]));
            }
            assert(is_peak(scores, k));
        }
    }
}

/// Among scores that are numbers, none negative, the peak is what the name
/// says: no score is a greater number than the one at the peak, and every
/// score before the peak is a smaller number.
pub proof fn lemma_peak_is_first_greatest_number(scores: Seq<u32>, k: int)
    requires
        is_peak(scores, k),
        forall|j: int| 0 <= j < scores.len() ==> !is_nan(#[trigger] scores[j]),
        forall|j: int| 0 <= j < scores.len() ==> !sign_negative(#[trigger] scores[j]),
    ensures
        forall|j: int| 0 <= j < scores.len() ==> !spec_less_than(scores[k], #[trigger] scores[j]),
        forall|j: int| 0 <= j < k ==> spec_less_than(#[trigger] scores[j], scores[k]),
{
    assert forall|j: int| 0 <= j < scores.len() implies !spec_less_than(
        scores[k],
        #[trigger] scores[j],
    ) by {
        lemma_total_order_agrees_with_less_than(scores[k], scores[j]);
    }
    assert forall|j: int| 0 <= j < k implies spec_less_than(#[trigger] scores[j], scores[k]) by {
        lemma_total_order_agrees_with_less_than(scores[j], scores[k]);
    }
}

/// Finds the peak of a row of scores in one pass from the front.
pub fn peak_window(scores: &[u32]) -> (peak: usize)
    requires
        scores@.len() > 0,
    ensures
        is_peak(scores@, peak as int),
        peak as int == peak_of(scores@),
{
    let mut peak: usize = 0;
    let mut i: usize = 1;
    while i < scores.len()
        invariant
            0 <= peak < i <= scores@.len(),
            forall|j: int|
                0 <= j < i ==> total_order_key(#[trigger] scores@[j]) <= total_order_key(
                    scores@[peak as int],
                ),
            forall|j: int|
                0 <= j < peak ==> total_order_key(#[trigger] scores@[j]) < total_order_key(
                    scores@[peak as int],
                ),
        decreases scores@.len() - i,
    {
        if total_order_less(scores[peak], scores[i]) {
            peak = i;
        }
        i += 1;
    }
    proof {
        assert(is_peak(scores@, peak as int));
        lemma_peak_exists(scores@);
        lemma_peak_unique(scores@, peak as int, peak_of(scores@));
    }
    peak
}

} // verus!
