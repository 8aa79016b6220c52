//! Distributions over finitely or countably many outcomes.

pub mod categorical;
