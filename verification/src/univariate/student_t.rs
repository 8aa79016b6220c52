//! Student's t distribution with `nu` degrees of freedom.
//!
//! The distribution is symmetric about zero.  Its moments exist only for
//! enough degrees of freedom: the mean for `nu > 1`, a finite variance for
//! `nu > 2`, the skewness for `nu > 3` and a finite excess kurtosis for
//! `nu > 4`.

use vstd::prelude::*;
use spaces::real::Reals;
use crate::error::{Domain, Error, Moment, Precondition};
use crate::probability::Probability;
use crate::scalar::{
    lemma_rank_orders_values, lemma_small_integers, unit, Real, FOUR_BITS, ONE_BITS, THREE_BITS,
    TWO_BITS,
};
use crate::support::real_line;
use crate::validation::Validator;

verus! {

/// Whether the variance exists and is finite for `nu` degrees of freedom:
/// undefined up to one, infinite above one and up to two.
pub open spec fn variance_outcome(nu: Real) -> Result<(), Error> {
    if nu.scaled() <= unit() {
        Err(Error::Precondition(Precondition::Undefined(Moment::Variance)))
    } else if nu.scaled() <= 2 * unit() {
        Err(Error::Precondition(Precondition::Infinite(Moment::Variance)))
    } else {
        Ok(())
    }
}

/// Whether the excess kurtosis exists and is finite for `nu` degrees of
/// freedom: undefined up to two, infinite above two and up to four.
pub open spec fn excess_kurtosis_outcome(nu: Real) -> Result<(), Error> {
    if nu.scaled() <= 2 * unit() {
        Err(Error::Precondition(Precondition::Undefined(Moment::ExcessKurtosis)))
    } else if nu.scaled() <= 4 * unit() {
        Err(Error::Precondition(Precondition::Infinite(Moment::ExcessKurtosis)))
    } else {
        Ok(())
    }
}

/// Student's t distribution; `nu` is a finite number above zero.
#[derive(Clone, Copy, Debug, PartialEq)]
pub struct StudentT {
    nu: Real,
}

impl View for StudentT {
    type V = Real;

    closed spec fn view(&self) -> Real {
        self.nu
    }
}

impl StudentT {
    #[verifier::type_invariant]
    spec fn positive_degrees(self) -> bool {
        self.nu.positive()
    }

    /// The distribution with `nu` degrees of freedom, if `nu` is a finite
    /// number above zero.
    pub fn new(nu: Real) -> (r: Result<StudentT, Error>)
        ensures
            nu.positive() ==> r is Ok && r->Ok_0@ == nu,
            !nu.positive() ==> r == Err::<StudentT, Error>(
                Error::ParameterDomain { parameter: "nu", domain: Domain::PositiveReal },
            ),
    {
        match Validator.require_positive_real("nu", nu) {
            Ok(_) => Ok(StudentT::new_unchecked(nu)),
            Err(e) => Err(e),
        }
    }

    /// The distribution with `nu` degrees of freedom, for a caller that has
    /// shown `nu` to be a finite number above zero.
    pub fn new_unchecked(nu: Real) -> (d: StudentT)
        requires
            nu.positive(),
        ensures
            d@ == nu,
    {
        StudentT { nu }
    }

    /// The degrees of freedom.
    pub fn nu(&self) -> (nu: Real)
        ensures
            nu == self@,
            nu.positive(),
    {
        proof {
            use_type_invariant(self);
        }
        self.nu
    }

    /// The real line.
    pub fn support(&self) -> Reals {
        real_line()
    }

    /// `nu` exceeds the number whose pattern is `threshold`.
    fn exceeds(&self, threshold: u64) -> (b: bool)
        requires
            threshold <= FOUR_BITS,
        ensures
            b == (self@.scaled() > Real::with_bits(threshold).scaled()),
    {
        proof {
            use_type_invariant(self);
            lemma_rank_orders_values(Real::with_bits(threshold), self.nu);
        }
        self.nu.bits > threshold
    }

    /// The mean, zero, which exists for `nu > 1`.
    pub fn mean(&self) -> (r: Result<Real, Error>)
        ensures
            self@.scaled() > unit() ==> r == Ok::<Real, Error>(Real::with_bits(0)),
            self@.scaled() <= unit() ==> r == Err::<Real, Error>(
                Error::Precondition(Precondition::Undefined(Moment::Mean)),
            ),
    {
        proof {
            lemma_small_integers();
        }
        if self.exceeds(ONE_BITS) {
            Ok(Real::zero())
        } else {
            Err(Error::Precondition(Precondition::Undefined(Moment::Mean)))
        }
    }

    /// Decides whether the variance, `nu / (nu - 2)`, exists and is finite.
    pub fn check_variance(&self) -> (r: Result<(), Error>)
        ensures
            r == variance_outcome(self@),
    {
        proof {
            lemma_small_integers();
        }
        if !self.exceeds(ONE_BITS) {
            Err(Error::Precondition(Precondition::Undefined(Moment::Variance)))
        } else if !self.exceeds(TWO_BITS) {
            Err(Error::Precondition(Precondition::Infinite(Moment::Variance)))
        } else {
            Ok(())
        }
    }

    /// The skewness, zero, which exists for `nu > 3`.
    pub fn skewness(&self) -> (r: Result<Real, Error>)
        ensures
            self@.scaled() > 3 * unit() ==> r == Ok::<Real, Error>(Real::with_bits(0)),
            self@.scaled() <= 3 * unit() ==> r == Err::<Real, Error>(
                Error::Precondition(Precondition::Undefined(Moment::Skewness)),
            ),
    {
        proof {
            lemma_small_integers();
        }
        if self.exceeds(THREE_BITS) {
            Ok(Real::zero())
        } else {
            Err(Error::Precondition(Precondition::Undefined(Moment::Skewness)))
        }
    }

    /// Decides whether the excess kurtosis, `6 / (nu - 4)`, exists and is
    /// finite.
    pub fn check_excess_kurtosis(&self) -> (r: Result<(), Error>)
        ensures
            r == excess_kurtosis_outcome(self@),
    {
        proof {
            lemma_small_integers();
        }
        if !self.exceeds(TWO_BITS) {
            Err(Error::Precondition(Precondition::Undefined(Moment::ExcessKurtosis)))
        } else if !self.exceeds(FOUR_BITS) {
            Err(Error::Precondition(Precondition::Infinite(Moment::ExcessKurtosis)))
        } else {
            Ok(())
        }
    }

    /// Not provided.
    pub fn quantile(&self, p: Probability) -> (r: Result<Real, Error>)
        ensures
            r == Err::<Real, Error>(Error::Unimplemented),
    {
        Err(Error::Unimplemented)
    }

    /// The median: zero, the centre of symmetry.
    pub fn median(&self) -> (m: Real)
        ensures
            m == Real::with_bits(0),
    {
        Real::zero()
    }

    /// The single mode: zero, the centre of symmetry.
    pub fn modes(&self) -> (modes: Vec<Real>)
        ensures
            modes@ == seq![Real::with_bits(0)],
    {
        let mut modes: Vec<Real> = Vec::new();
        modes.push(Real::zero());
        modes
    }
}

} // verus!
