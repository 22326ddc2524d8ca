//! Basic descriptive statistics — mean and median — computed over the bit
//! patterns of IEEE-754 double-precision numbers, with the validation,
//! sorting and selection logic verified.
//!
//! A caller that holds floating-point numbers converts them to their bit
//! patterns (`f64::to_bits`), hands the patterns to this crate, and turns
//! the selected patterns back into numbers. The crate never mutates the
//! caller's data: ordering happens on a private copy.

pub mod bits;
pub mod sorting;
pub mod stats;

pub use bits::bits_is_nan;
pub use sorting::sort_bits;
pub use stats::mean::mean_divisor;
pub use stats::median::median;
pub use stats::median::MedianError;
pub use stats::median::MedianSelection;
