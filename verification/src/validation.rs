//! Parameter checks for constructors.
//!
//! Each check consumes the [`Validator`] and hands it back on success, so a
//! constructor chains its checks with `?` and stops at the first parameter
//! that lies outside its domain.

use vstd::prelude::*;
use crate::error::{Domain, Error};
use crate::scalar::Real;

verus! {

/// What a check on `parameter` reports when the value is outside `domain`.
pub open spec fn rejected(parameter: &'static str, domain: Domain) -> Error {
    Error::ParameterDomain { parameter, domain }
}

/// The outcome of one check: the validator again if `holds`, otherwise the
/// parameter and the domain it missed.
pub open spec fn checked(
    holds: bool,
    parameter: &'static str,
    domain: Domain,
) -> Result<Validator, Error> {
    if holds {
        Ok(Validator)
    } else {
        Err(rejected(parameter, domain))
    }
}

/// A token for chaining parameter checks.
#[derive(Clone, Copy, Debug, PartialEq, Eq)]
pub struct Validator;

impl Validator {
    /// `x` is finite and above zero.
    pub fn require_positive_real(self, parameter: &'static str, x: Real) -> (r: Result<
        Validator,
        Error,
    >)
        ensures
            r == checked(x.positive(), parameter, Domain::PositiveReal),
    {
        if x.is_positive() {
            Ok(self)
        } else {
            Err(Error::ParameterDomain { parameter, domain: Domain::PositiveReal })
        }
    }

    /// `x` is finite and not below zero.
    pub fn require_non_negative_real(self, parameter: &'static str, x: Real) -> (r: Result<
        Validator,
        Error,
    >)
        ensures
            r == checked(x.non_negative(), parameter, Domain::NonNegativeReal),
    {
        if x.is_non_negative() {
            Ok(self)
        } else {
            Err(Error::ParameterDomain { parameter, domain: Domain::NonNegativeReal })
        }
    }

    /// `p` is a number between zero and one, both included.
    pub fn require_probability(self, parameter: &'static str, p: Real) -> (r: Result<
        Validator,
        Error,
    >)
        ensures
            r == checked(p.in_unit_interval(), parameter, Domain::Probability),
    {
        if p.is_in_unit_interval() {
            Ok(self)
        } else {
            Err(Error::ParameterDomain { parameter, domain: Domain::Probability })
        }
    }

    /// `n` is at least one.
    pub fn require_natural(self, parameter: &'static str, n: usize) -> (r: Result<
        Validator,
        Error,
    >)
        ensures
            r == checked(n >= 1, parameter, Domain::Natural),
    {
        if n >= 1 {
            Ok(self)
        } else {
            Err(Error::ParameterDomain { parameter, domain: Domain::Natural })
        }
    }

    /// The two dimensions `a` and `b` agree.
    pub fn require_shape_match(self, parameter: &'static str, a: usize, b: usize) -> (r: Result<
        Validator,
        Error,
    >)
        ensures
            r == checked(a == b, parameter, Domain::ShapeMatch),
    {
        if a == b {
            Ok(self)
        } else {
            Err(Error::ParameterDomain { parameter, domain: Domain::ShapeMatch })
        }
    }

    /// The matrix was found positive-definite by whoever factorised it; the
    /// verdict is passed in, since no factorisation is done here.
    pub fn require_positive_definite(self, parameter: &'static str, verdict: bool) -> (r: Result<
        Validator,
        Error,
    >)
        ensures
            r == checked(verdict, parameter, Domain::PositiveDefinite),
    {
        if verdict {
            Ok(self)
        } else {
            Err(Error::ParameterDomain { parameter, domain: Domain::PositiveDefinite })
        }
    }
}

} // verus!
