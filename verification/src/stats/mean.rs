//! Arithmetic mean of a sequence of double-precision bit patterns: the
//! sum of the values divided by their count.
//!
//! The sum of the denoted numbers is the caller's to take; what this
//! module settles is whether a mean exists and what to divide by: an
//! empty input has no mean and gets an absent value, any other input
//! gets its length, the count the sum is divided by.

use vstd::prelude::*;

verus! {

/// What the divisor is on any input: absent for an empty sequence, the
/// length otherwise.
pub open spec fn mean_divisor_spec(s: Seq<u64>) -> Option<usize> {
    if s.len() == 0 {
        None
    } else {
        Some(s.len() as usize)
    }
}

/// The count of values the mean averages over: `None` exactly when the
/// input is empty — an empty sequence has no mean — and otherwise the
/// length of the input, the divisor under the sum.
pub fn mean_divisor(data: &Vec<u64>) -> (r: Option<usize>)
    ensures
        r == mean_divisor_spec(data@),
        r is None <==> data@.len() == 0,
        r matches Some(n) ==> n == data@.len(),
{
    if data.len() == 0 {
        None
    } else {
        Some(data.len())
    }
}

} // verus!
