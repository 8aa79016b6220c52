//! Distributions over vectors of numbers.

pub mod lognormal;
pub mod normal;
