//! The failures that the library reports.

use vstd::prelude::*;

verus! {

/// The domain that a parameter was required to lie in.
#[derive(Clone, Copy, Debug, PartialEq, Eq)]
pub enum Domain {
    /// A finite number above zero.
    PositiveReal,
    /// A finite number not below zero.
    NonNegativeReal,
    /// A number in the closed interval from zero to one.
    Probability,
    /// An integer that is at least one.
    Natural,
    /// A sequence with at least one element.
    NonEmpty,
    /// Weights with a total above zero.
    PositiveSum,
    /// Two shapes that agree.
    ShapeMatch,
    /// A symmetric positive-definite matrix.
    PositiveDefinite,
}

/// A moment of a univariate distribution.
#[derive(Clone, Copy, Debug, PartialEq, Eq)]
pub enum Moment {
    Mean,
    Variance,
    Skewness,
    ExcessKurtosis,
}

/// Why a query on a valid distribution has no answer.
#[derive(Clone, Copy, Debug, PartialEq, Eq)]
pub enum Precondition {
    /// The argument lies outside the support.
    OutsideSupport,
    /// The moment does not exist for the distribution's parameters.
    Undefined(Moment),
    /// The moment is infinite for the distribution's parameters.
    Infinite(Moment),
}

/// What went wrong, by where it arose.
#[derive(Clone, Copy, Debug, PartialEq, Eq)]
pub enum Error {
    /// A constructor was given a parameter outside its domain.
    ParameterDomain { parameter: &'static str, domain: Domain },
    /// The distribution is valid, the question is not.
    Precondition(Precondition),
    /// The capability is advertised but this operation is not provided.
    Unimplemented,
    /// An integer helper was asked for a value beyond the machine range.
    Overflow,
}

} // verus!
