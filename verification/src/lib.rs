//! Probability distributions over a small set of shared capabilities, with
//! the parameter checks and existence conditions of each one stated and
//! proved.

pub mod discrete;
pub mod error;
pub mod multivariate;
pub mod probability;
pub mod scalar;
pub mod support;
pub mod univariate;
pub mod validation;
