//! Model of IEEE-754 double-precision values as their 64-bit patterns.
//!
//! Every statistic in this crate works on the bit patterns of the numbers,
//! so that the properties that matter to the algorithms — which patterns
//! denote a NaN, and how the denoted numbers are ordered — are plain
//! statements about `u64` values.

use vstd::prelude::*;

verus! {

/// Sign bit of a double-precision bit pattern.
pub const SIGN_MASK: u64 = 0x8000_0000_0000_0000;

/// Exponent field of a double-precision bit pattern.
pub const EXPONENT_MASK: u64 = 0x7FF0_0000_0000_0000;

/// Fraction field of a double-precision bit pattern.
pub const FRACTION_MASK: u64 = 0x000F_FFFF_FFFF_FFFF;

/// A pattern denotes a NaN exactly when its exponent field is saturated
/// and its fraction field is non-zero.
pub open spec fn is_nan_bits(b: u64) -> bool {
    b & EXPONENT_MASK == EXPONENT_MASK && b & FRACTION_MASK != 0
}

/// Whether the pattern `b` denotes a NaN.
pub fn bits_is_nan(b: u64) -> (r: bool)
    ensures
        r == is_nan_bits(b),
{
    b & EXPONENT_MASK == EXPONENT_MASK && b & FRACTION_MASK != 0
}

/// Monotone key for the IEEE-754 total order: patterns with the sign bit
/// set (negative numbers) are reversed and placed below, the rest are
/// shifted above, so that comparing keys as unsigned integers compares
/// the denoted numbers. On non-NaN patterns this order agrees with the
/// numeric order of the denoted values (with the negative zero just
/// below the positive one).
pub open spec fn sort_key(b: u64) -> u64 {
    if b & SIGN_MASK != 0 {
        b ^ 0xFFFF_FFFF_FFFF_FFFF
    } else {
        b ^ SIGN_MASK
    }
}

/// The order the statistics sort by: ascending `sort_key`.
pub open spec fn key_le(a: u64, b: u64) -> bool {
    sort_key(a) <= sort_key(b)
}

/// `key_le` as a binary relation value, for the sequence-sorting library.
pub open spec fn key_le_fn() -> spec_fn(u64, u64) -> bool {
    |a: u64, b: u64| key_le(a, b)
}

/// The key of the pattern `b`.
pub fn compute_sort_key(b: u64) -> (k: u64)
    ensures
        k == sort_key(b),
{
    if b & SIGN_MASK != 0 {
        b ^ 0xFFFF_FFFF_FFFF_FFFF
    } else {
        b ^ SIGN_MASK
    }
}

/// Distinct patterns have distinct keys, so `key_le` is antisymmetric.
pub proof fn lemma_sort_key_injective(a: u64, b: u64)
    ensures
        sort_key(a) == sort_key(b) ==> a == b,
{
    assert(sort_key(a) == sort_key(b) ==> a == b) by (bit_vector);
}

/// `key_le` is a total order on bit patterns.
pub proof fn lemma_key_le_total_ordering()
    ensures
        vstd::relations::total_ordering(key_le_fn()),
{
    let leq = key_le_fn();
    assert forall|a: u64, b: u64| #[trigger] leq(a, b) && #[trigger] leq(b, a) implies a == b by {
        lemma_sort_key_injective(a, b);
    }
    assert(vstd::relations::reflexive(leq));
    assert(vstd::relations::antisymmetric(leq));
    assert(vstd::relations::transitive(leq));
    assert(vstd::relations::strongly_connected(leq));
}

} // verus!
