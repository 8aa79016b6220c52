//! A probability: a number between zero and one.

use std::cmp::Ordering;
use vstd::prelude::*;
use vstd::std_specs::cmp::{PartialEqSpecImpl, PartialOrdSpecImpl};
use crate::error::{Domain, Error};
use crate::scalar::{lemma_rank_orders_values, lemma_small_integers, unit, Real, ONE_BITS};
use crate::validation::Validator;

verus! {

/// The number that an arbitrary datum saturates to: itself inside the unit
/// interval, zero below it, one above it.  A datum that is not a number
/// saturates to one, as the quotient of zero by zero does.
pub open spec fn saturated(x: Real) -> Real {
    if x.in_unit_interval() {
        x
    } else if !x.nan() && x.scaled() < 0 {
        Real::with_bits(0)
    } else {
        Real::with_bits(ONE_BITS)
    }
}

/// The value of `x` limited to the range from `lo` to `hi`.
pub open spec fn clamp(x: int, lo: int, hi: int) -> int {
    if x < lo {
        lo
    } else if x > hi {
        hi
    } else {
        x
    }
}

/// Whatever is saturated is a probability.
pub proof fn lemma_saturated_in_unit_interval(x: Real)
    ensures
        saturated(x).in_unit_interval(),
        !x.nan() ==> saturated(x).scaled() == clamp(x.scaled(), 0, unit() as int),
{
    lemma_small_integers();
}

/// Saturating keeps a probability as it is, so saturating twice is
/// saturating once.
pub proof fn lemma_saturated_fixes_probabilities(x: Real)
    ensures
        x.in_unit_interval() ==> saturated(x) == x,
        saturated(saturated(x)) == saturated(x),
{
    lemma_saturated_in_unit_interval(x);
}

/// A raw sum or quotient of probabilities is a number not below zero or not
/// a number at all; it saturates to the smaller of itself and one.
pub proof fn lemma_saturated_sum(raw: Real)
    requires
        !raw.nan(),
        raw.scaled() >= 0,
    ensures
        saturated(raw).scaled() == if raw.scaled() <= unit() {
            raw.scaled()
        } else {
            unit() as int
        },
{
    lemma_saturated_in_unit_interval(raw);
}

/// A raw difference of probabilities is a number not above one; it
/// saturates to the larger of itself and zero.
pub proof fn lemma_saturated_difference(raw: Real)
    requires
        !raw.nan(),
        raw.scaled() <= unit(),
    ensures
        saturated(raw).scaled() == if raw.scaled() >= 0 {
            raw.scaled()
        } else {
            0
        },
{
    lemma_saturated_in_unit_interval(raw);
}

/// What is decided on raw weights and their total before they are
/// normalised: the weights are not empty, each is a finite number not below
/// zero, and the total is a finite number above zero.  The first failure in
/// that order is reported.
pub open spec fn weights_outcome(weights: Seq<Real>, total: Real) -> Result<(), Error> {
    if weights.len() == 0 {
        Err(Error::ParameterDomain { parameter: "ps", domain: Domain::NonEmpty })
    } else if exists|i: int| 0 <= i < weights.len() && !(#[trigger] weights[i]).non_negative() {
        Err(Error::ParameterDomain { parameter: "ps", domain: Domain::NonNegativeReal })
    } else if !total.positive() {
        Err(Error::ParameterDomain { parameter: "ps", domain: Domain::PositiveSum })
    } else {
        Ok(())
    }
}

/// What is decided on the quotients of valid weights by their total: there
/// is one for each weight, and each is a number between zero and one.
pub open spec fn quotients_outcome(count: nat, quotients: Seq<Real>) -> Result<(), Error> {
    if quotients.len() != count {
        Err(Error::ParameterDomain { parameter: "ps", domain: Domain::ShapeMatch })
    } else if exists|i: int|
        0 <= i < quotients.len() && !(#[trigger] quotients[i]).in_unit_interval() {
        Err(Error::ParameterDomain { parameter: "ps", domain: Domain::Probability })
    } else {
        Ok(())
    }
}

/// The numbers that the probabilities `ps` hold.
pub open spec fn values(ps: Seq<Probability>) -> Seq<Real> {
    Seq::new(ps.len(), |i: int| ps[i]@)
}

/// A number in the closed interval from zero to one.
///
/// No value of this type holds anything else: the constructors check or
/// demand the range, and [`Probability::saturate`] forces it.  Probabilities
/// are compared as the numbers they hold.
#[derive(Clone, Copy, Debug)]
pub struct Probability {
    value: Real,
}

impl PartialEq for Probability {
    fn eq(&self, other: &Probability) -> (b: bool) {
        self.value == other.value
    }
}

impl PartialEqSpecImpl for Probability {
    open spec fn obeys_eq_spec() -> bool {
        true
    }

    open spec fn eq_spec(&self, other: &Probability) -> bool {
        self@.equal(other@)
    }
}

impl PartialOrd for Probability {
    fn partial_cmp(&self, other: &Probability) -> (o: Option<Ordering>) {
        self.value.partial_cmp(&other.value)
    }
}

impl PartialOrdSpecImpl for Probability {
    open spec fn obeys_partial_cmp_spec() -> bool {
        true
    }

    open spec fn partial_cmp_spec(&self, other: &Probability) -> Option<Ordering> {
        self@.compared(other@)
    }
}

impl View for Probability {
    type V = Real;

    closed spec fn view(&self) -> Real {
        self.value
    }
}

impl Probability {
    #[verifier::type_invariant]
    spec fn within_unit_interval(self) -> bool {
        self.value.in_unit_interval()
    }

    /// Accepts `x` if it is a number between zero and one.
    pub fn new(x: Real) -> (r: Result<Probability, Error>)
        ensures
            x.in_unit_interval() ==> r is Ok && r->Ok_0@ == x,
            !x.in_unit_interval() ==> r == Err::<Probability, Error>(
                Error::ParameterDomain { parameter: "p", domain: Domain::Probability },
            ),
            r is Ok ==> r->Ok_0@.in_unit_interval(),
    {
        match Validator.require_probability("p", x) {
            Ok(_) => Ok(Probability { value: x }),
            Err(e) => Err(e),
        }
    }

    /// Wraps a number that the caller has shown to lie in the unit interval.
    pub fn new_unchecked(x: Real) -> (p: Probability)
        requires
            x.in_unit_interval(),
        ensures
            p@ == x,
            p@.in_unit_interval(),
    {
        Probability { value: x }
    }

    /// The impossible event.
    pub fn zero() -> (p: Probability)
        ensures
            p@ == Real::with_bits(0),
            p@.scaled() == 0,
            p@.in_unit_interval(),
    {
        proof {
            lemma_small_integers();
        }
        Probability { value: Real::zero() }
    }

    /// The certain event.
    pub fn one() -> (p: Probability)
        ensures
            p@ == Real::with_bits(ONE_BITS),
            p@.scaled() == unit(),
            p@.in_unit_interval(),
    {
        proof {
            lemma_small_integers();
        }
        Probability { value: Real::one() }
    }

    /// The underlying number, which lies between zero and one.
    pub fn value(&self) -> (x: Real)
        ensures
            x == self@,
            x.in_unit_interval(),
    {
        proof {
            use_type_invariant(self);
        }
        self.value
    }

    /// Forces the raw result of an arithmetic operation into the unit
    /// interval: a sum or quotient above one becomes one, a difference below
    /// zero becomes zero, and a number already inside is kept as it is.
    pub fn saturate(x: Real) -> (p: Probability)
        ensures
            p@ == saturated(x),
            p@.in_unit_interval(),
            !x.nan() ==> p@.scaled() == clamp(x.scaled(), 0, unit() as int),
    {
        proof {
            lemma_small_integers();
            lemma_rank_orders_values(x, Real::with_bits(0));
        }
        if x.is_in_unit_interval() {
            Probability { value: x }
        } else if !x.is_nan() && x.is_sign_negative() {
            Probability { value: Real::zero() }
        } else {
            Probability { value: Real::one() }
        }
    }

    /// Decides whether raw weights can be normalised, given their total
    /// (the caller adds them up): see [`weights_outcome`].
    pub fn check_weights(weights: &Vec<Real>, total: Real) -> (r: Result<(), Error>)
        ensures
            r == weights_outcome(weights@, total),
    {
        if weights.len() == 0 {
            return Err(Error::ParameterDomain { parameter: "ps", domain: Domain::NonEmpty });
        }
        let mut i: usize = 0;
        while i < weights.len()
            invariant
                i <= weights@.len(),
                forall|j: int| 0 <= j < i ==> (#[trigger] weights@[j]).non_negative(),
            decreases weights@.len() - i,
        {
            if !weights[i].is_non_negative() {
                return Err(
                    Error::ParameterDomain { parameter: "ps", domain: Domain::NonNegativeReal },
                );
            }
            i += 1;
        }
        if !total.is_positive() {
            return Err(Error::ParameterDomain { parameter: "ps", domain: Domain::PositiveSum });
        }
        Ok(())
    }

    /// Turns weights into probabilities, given the total of the weights and
    /// the quotient of each weight by that total (the caller adds and
    /// divides).  The weights and the total are checked as
    /// [`weights_outcome`] says, then the quotients as [`quotients_outcome`]
    /// says; what is returned holds the quotients in their order.
    pub fn normalised(weights: &Vec<Real>, total: Real, quotients: &Vec<Real>) -> (r: Result<
        Vec<Probability>,
        Error,
    >)
        ensures
            match weights_outcome(weights@, total) {
                Err(e) => r == Err::<Vec<Probability>, Error>(e),
                Ok(_) => match quotients_outcome(weights@.len(), quotients@) {
                    Err(e) => r == Err::<Vec<Probability>, Error>(e),
                    Ok(_) => r is Ok && values(r->Ok_0@) == quotients@,
                },
            },
            r is Ok ==> forall|i: int|
                0 <= i < r->Ok_0@.len() ==> (#[trigger] r->Ok_0@[i])@.in_unit_interval(),
    {
        match Probability::check_weights(weights, total) {
            Ok(_) => {},
            Err(e) => {
                return Err(e);
            },
        }
        if quotients.len() != weights.len() {
            return Err(Error::ParameterDomain { parameter: "ps", domain: Domain::ShapeMatch });
        }
        let mut ps: Vec<Probability> = Vec::new();
        let mut i: usize = 0;
        while i < quotients.len()
            invariant
                i <= quotients@.len(),
                ps@.len() == i,
                quotients@.len() == weights@.len(),
                weights_outcome(weights@, total) is Ok,
                forall|j: int| 0 <= j < i ==> (#[trigger] quotients@[j]).in_unit_interval(),
                forall|j: int| 0 <= j < i ==> (#[trigger] ps@[j])@ == quotients@[j],
            decreases quotients@.len() - i,
        {
            let q: Real = quotients[i];
            if !q.is_in_unit_interval() {
                return Err(Error::ParameterDomain { parameter: "ps", domain: Domain::Probability });
            }
            ps.push(Probability::new_unchecked(q));
            i += 1;
        }
        assert(values(ps@) =~= quotients@);
        Ok(ps)
    }
}

} // verus!
