//! Helpers of the feed pallet.
use crate::ordering::{kth_smallest, lemma_sorted_values, sort_values, sorted_values};
use vstd::prelude::*;

verus! {

/// The median of a non-empty list of values: the middle element of the sorted
/// values, or the mean (rounded down) of the two middle ones, whose sum saturates.
pub open spec fn spec_median(s: Seq<u64>) -> u64 {
    let mid = s.len() / 2;
    if s.len() % 2 == 0 {
        let a = kth_smallest(s, mid - 1);
        let b = kth_smallest(s, mid as int);
        let sum: int = if a + b > u64::MAX { u64::MAX as int } else { a + b };
        (sum / 2) as u64
    } else {
        kth_smallest(s, mid as int)
    }
}

/// Determine the median of the values, which are left sorted.
///
/// The values must not be empty.
pub fn median(numbers: &mut Vec<u64>) -> (r: u64)
    requires
        old(numbers)@.len() > 0,
    ensures
        final(numbers)@ == sorted_values(old(numbers)@),
        r == spec_median(old(numbers)@),
{
    let sorted = sort_values(numbers);
    proof {
        lemma_sorted_values(numbers@);
    }
    let ghost original = numbers@;
    *numbers = sorted;
    let mid = numbers.len() / 2;
    if numbers.len() % 2 == 0 {
        numbers[mid - 1].saturating_add(numbers[mid]) / 2
    } else {
        numbers[mid]
    }
}

} // verus!
