//! Arithmetic median of a sequence of double-precision bit patterns.
//!
//! The input is validated first: an empty sequence and a sequence
//! holding a NaN pattern are rejected with distinct errors. A valid sequence is
//! copied, the copy is ordered ascending, and the two middle patterns of
//! the ordered copy are returned (the same pattern twice when the length
//! is odd). The caller averages the two denoted numbers; for an odd
//! length the lone middle number is the median itself.

use vstd::prelude::*;

use crate::bits::bits_is_nan;
use crate::bits::is_nan_bits;
use crate::sorting::lemma_sorted_bits_ensures;
use crate::sorting::lemma_sorted_bits_unique;
use crate::sorting::sort_bits;
use crate::sorting::sorted_bits;

verus! {

/// Why a median could not be computed.
#[derive(Clone, Copy, Debug, PartialEq, Eq, Structural)]
pub enum MedianError {
    /// The input holds no values.
    EmptyInput,
    /// Some input value is a NaN.
    ContainsNaN,
}

/// The two middle patterns of the ordered input: `lo` at index
/// `(n - 1) / 2` and `hi` at index `n / 2`. They coincide when the
/// length `n` is odd; the median is the average of the two denoted
/// numbers.
#[derive(Clone, Copy, Debug, PartialEq, Eq, Structural)]
pub struct MedianSelection {
    /// The lower middle pattern of the ordered input.
    pub lo: u64,
    /// The upper middle pattern of the ordered input.
    pub hi: u64,
}

/// Whether some pattern of `s` denotes a NaN.
pub open spec fn has_nan(s: Seq<u64>) -> bool {
    exists|i: int| 0 <= i < s.len() && is_nan_bits(#[trigger] s[i])
}

/// A sequence a median is owed for: non-empty and free of NaN patterns.
pub open spec fn valid_input(s: Seq<u64>) -> bool {
    s.len() > 0 && !has_nan(s)
}

/// The selection the median makes on a valid input.
pub open spec fn median_selection(s: Seq<u64>) -> MedianSelection {
    MedianSelection {
        lo: sorted_bits(s)[(s.len() - 1) as int / 2],
        hi: sorted_bits(s)[s.len() as int / 2],
    }
}

/// What `median` returns on any input: `EmptyInput` on an empty
/// sequence, else `ContainsNaN` when some pattern is a NaN, else the
/// middle of the ordered input.
pub open spec fn median_spec(s: Seq<u64>) -> Result<MedianSelection, MedianError> {
    if s.len() == 0 {
        Err(MedianError::EmptyInput)
    } else if has_nan(s) {
        Err(MedianError::ContainsNaN)
    } else {
        Ok(median_selection(s))
    }
}

/// The middle of the input under the IEEE-754 total order.
///
/// The input is only read; the ordering needed to find the middle
/// happens on a private copy.
pub fn median(data: &Vec<u64>) -> (r: Result<MedianSelection, MedianError>)
    ensures
        r == median_spec(data@),
        r is Ok <==> valid_input(data@),
        data@.len() == 0 ==> r == Err::<MedianSelection, MedianError>(MedianError::EmptyInput),
        data@.len() > 0 && has_nan(data@) ==> r == Err::<MedianSelection, MedianError>(
            MedianError::ContainsNaN,
        ),
{
    if data.len() == 0 {
        return Err(MedianError::EmptyInput);
    }
    let mut i: usize = 0;
    while i < data.len()
        invariant
            i <= data@.len(),
            forall|q: int| 0 <= q < i ==> !is_nan_bits(#[trigger] data@[q]),
        decreases data@.len() - i,
    {
        if bits_is_nan(data[i]) {
            return Err(MedianError::ContainsNaN);
        }
        i += 1;
    }
    let sorted = sort_bits(data);
    proof {
        lemma_sorted_bits_ensures(data@);
    }
    let n = sorted.len();
    let mid = n / 2;
    let lo = if n % 2 == 0 {
        sorted[mid - 1]
    } else {
        sorted[mid]
    };
    let hi = sorted[mid];
    Ok(MedianSelection { lo, hi })
}

/// The median depends on which patterns the input holds, never on their
/// order: inputs holding the same multiset of patterns get the very
/// same outcome, success or failure.
pub proof fn lemma_median_order_invariant(s: Seq<u64>, t: Seq<u64>)
    requires
        s.to_multiset() == t.to_multiset(),
    ensures
        median_spec(s) == median_spec(t),
{
    s.to_multiset_ensures();
    t.to_multiset_ensures();
    assert(s.len() == t.len());
    assert(has_nan(s) == has_nan(t)) by {
        if has_nan(s) {
            let i = choose|i: int| 0 <= i < s.len() && is_nan_bits(#[trigger] s[i]);
            assert(s.contains(s[i]));
            assert(s.to_multiset().count(s[i]) > 0);
            assert(t.contains(s[i]));
            let j = choose|j: int| 0 <= j < t.len() && t[j] == s[i];
            assert(is_nan_bits(t[j]));
        }
        if has_nan(t) {
            let i = choose|i: int| 0 <= i < t.len() && is_nan_bits(#[trigger] t[i]);
            assert(t.contains(t[i]));
            assert(t.to_multiset().count(t[i]) > 0);
            assert(s.contains(t[i]));
            let j = choose|j: int| 0 <= j < s.len() && s[j] == t[i];
            assert(is_nan_bits(s[j]));
        }
    }
    if valid_input(s) && valid_input(t) {
        lemma_sorted_bits_ensures(t);
        lemma_sorted_bits_unique(s, sorted_bits(t));
    }
}

/// On a valid input of odd length `n`, both selected patterns are the
/// single middle one, at index `n / 2` of the ordered input.
pub proof fn lemma_median_odd(s: Seq<u64>)
    requires
        valid_input(s),
        s.len() % 2 == 1,
    ensures
        median_spec(s) is Ok,
        median_spec(s)->Ok_0.lo == sorted_bits(s)[s.len() as int / 2],
        median_spec(s)->Ok_0.hi == sorted_bits(s)[s.len() as int / 2],
{
}

/// On a valid input of even length `n`, the selected patterns are the
/// ones at indices `n / 2 - 1` and `n / 2` of the ordered input.
pub proof fn lemma_median_even(s: Seq<u64>)
    requires
        valid_input(s),
        s.len() % 2 == 0,
    ensures
        median_spec(s) is Ok,
        median_spec(s)->Ok_0.lo == sorted_bits(s)[s.len() as int / 2 - 1],
        median_spec(s)->Ok_0.hi == sorted_bits(s)[s.len() as int / 2],
{
}

/// The two failures, each owed exactly on its inputs: emptiness wins
/// over everything, a NaN anywhere in a non-empty input loses to
/// nothing else.
pub proof fn lemma_median_errors(s: Seq<u64>)
    ensures
        s.len() == 0 <==> median_spec(s) == Err::<MedianSelection, MedianError>(
            MedianError::EmptyInput,
        ),
        (s.len() > 0 && has_nan(s)) <==> median_spec(s) == Err::<MedianSelection, MedianError>(
            MedianError::ContainsNaN,
        ),
{
}

} // verus!
