//! The statistics themselves, one module each, sharing the validation
//! and ordering machinery of the crate.

pub mod mean;
pub mod median;
