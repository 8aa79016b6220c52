//! The normal distribution with mean `mu` and standard deviation `sigma`.
//!
//! The distribution is symmetric about its mean, so mean, median and mode
//! coincide, and its skewness and excess kurtosis are zero.

use vstd::prelude::*;
use spaces::real::Reals;
use crate::error::{Domain, Error};
use crate::scalar::{Real, ONE_BITS};
use crate::support::real_line;
use crate::validation::Validator;

verus! {

/// A normal distribution; `sigma` is a finite number above zero.
#[derive(Clone, Copy, Debug, PartialEq)]
pub struct Normal {
    mu: Real,
    sigma: Real,
}

impl Normal {
    #[verifier::type_invariant]
    spec fn positive_deviation(self) -> bool {
        self.sigma.positive()
    }

    /// The mean.
    pub closed spec fn location(&self) -> Real {
        self.mu
    }

    /// The standard deviation.
    pub closed spec fn scale(&self) -> Real {
        self.sigma
    }

    /// The distribution with mean `mu` and standard deviation `sigma`, if
    /// `sigma` is a finite number above zero.
    pub fn new(mu: Real, sigma: Real) -> (r: Result<Normal, Error>)
        ensures
            sigma.positive() ==> r is Ok && r->Ok_0.location() == mu && r->Ok_0.scale() == sigma,
            !sigma.positive() ==> r == Err::<Normal, Error>(
                Error::ParameterDomain { parameter: "sigma", domain: Domain::PositiveReal },
            ),
    {
        match Validator.require_positive_real("sigma", sigma) {
            Ok(_) => Ok(Normal::new_unchecked(mu, sigma)),
            Err(e) => Err(e),
        }
    }

    /// The distribution with mean `mu` and standard deviation `sigma`, for a
    /// caller that has shown `sigma` to be a finite number above zero.
    pub fn new_unchecked(mu: Real, sigma: Real) -> (d: Normal)
        requires
            sigma.positive(),
        ensures
            d.location() == mu,
            d.scale() == sigma,
    {
        Normal { mu, sigma }
    }

    /// The distribution with mean zero and standard deviation one.
    pub fn standard() -> (d: Normal)
        ensures
            d.location() == Real::with_bits(0),
            d.scale() == Real::with_bits(ONE_BITS),
    {
        Normal { mu: Real::zero(), sigma: Real::one() }
    }

    /// The mean parameter.
    pub fn mu(&self) -> (mu: Real)
        ensures
            mu == self.location(),
    {
        self.mu
    }

    /// The standard deviation, a finite number above zero.
    pub fn sigma(&self) -> (sigma: Real)
        ensures
            sigma == self.scale(),
            sigma.positive(),
    {
        proof {
            use_type_invariant(self);
        }
        self.sigma
    }

    /// The real line.
    pub fn support(&self) -> Reals {
        real_line()
    }

    /// The mean: `mu`.
    pub fn mean(&self) -> (m: Real)
        ensures
            m == self.location(),
    {
        self.mu
    }

    /// The skewness: zero.
    pub fn skewness(&self) -> (s: Real)
        ensures
            s == Real::with_bits(0),
    {
        Real::zero()
    }

    /// The excess kurtosis: zero.
    pub fn excess_kurtosis(&self) -> (k: Real)
        ensures
            k == Real::with_bits(0),
    {
        Real::zero()
    }

    /// The median: `mu`, the centre of symmetry.
    pub fn median(&self) -> (m: Real)
        ensures
            m == self.location(),
    {
        self.mu
    }

    /// The single mode: `mu`, the centre of symmetry.
    pub fn modes(&self) -> (modes: Vec<Real>)
        ensures
            modes@ == seq![self.location()],
    {
        let mut modes: Vec<Real> = Vec::new();
        modes.push(self.mu);
        modes
    }
}

} // verus!
