use rstat::discrete::categorical::Categorical;
use rstat::error::{Domain, Error, Precondition};
use rstat::probability::Probability;
use rstat::scalar::Real;
use spaces::{BoundedSpace, Card, Dim, FiniteSpace, Space};

fn num(x: f64) -> Real {
    Real::from_bits(x.to_bits())
}

fn number(p: Probability) -> f64 {
    f64::from_bits(p.value().to_bits())
}

fn rejected(domain: Domain) -> Error {
    Error::ParameterDomain { parameter: "ps", domain }
}

/// Adds the weights up, divides each by the total and builds the distribution.
fn from_weights(weights: &[f64]) -> Result<Categorical, Error> {
    let total: f64 = weights.iter().sum();
    let raw: Vec<Real> = weights.iter().map(|w| num(*w)).collect();
    let quotients: Vec<Real> = weights.iter().map(|w| num(w / total)).collect();
    Categorical::new(Probability::normalised(&raw, num(total), &quotients)?)
}

fn from_probabilities(ps: &[f64]) -> Categorical {
    Categorical::new(ps.iter().map(|p| Probability::new(num(*p)).unwrap()).collect()).unwrap()
}

fn stored(d: &Categorical) -> Vec<f64> {
    d.ps().iter().map(|p| number(*p)).collect()
}

#[test]
fn weights_are_stored_normalised() {
    let d = from_weights(&[1.0, 1.0, 2.0]).unwrap();
    assert_eq!(stored(&d), vec![0.25, 0.25, 0.5]);
    assert_eq!(number(d.pmf(2).unwrap()), 0.5);
    assert_eq!(d.modes(), vec![2]);
    assert_eq!(d.cardinality(), 3);
    assert_eq!(d.support().card(), Card::Finite(3));
}

#[test]
fn all_outcomes_tied() {
    let d = from_weights(&[1.0, 1.0, 1.0]).unwrap();
    assert_eq!(d.modes(), vec![0, 1, 2]);
}

#[test]
fn the_masses_add_up_to_one() {
    let d = from_weights(&[3.0, 1.0, 4.0, 1.0, 5.0, 9.0, 2.0, 6.0]).unwrap();
    let mut total = 0.0;
    for i in 0..d.cardinality() {
        total += number(d.pmf(i).unwrap());
    }
    assert!((total - 1.0).abs() < 1e-12);
}

#[test]
fn normalising_keeps_the_ratios() {
    let weights = [2.0, 6.0, 8.0];
    let d = from_weights(&weights).unwrap();
    let ps = stored(&d);
    assert_eq!(ps, vec![0.125, 0.375, 0.5]);
    assert_eq!(ps[1] / ps[0], weights[1] / weights[0]);
    assert_eq!(ps[2] / ps[0], weights[2] / weights[0]);
}

#[test]
fn the_support_is_the_indices_below_k() {
    let d = from_probabilities(&[0.1, 0.2, 0.3, 0.4]);
    let support = d.support();
    assert_eq!(support.card(), Card::Finite(4));
    assert_eq!(support.dim(), Dim::Finite(1));
    assert_eq!(support.range(), 0..4);
    assert!(support.contains(0));
    assert!(support.contains(3));
    assert!(!support.contains(4));
}

#[test]
fn mass_of_each_outcome() {
    let d = from_probabilities(&[0.1, 0.2, 0.7]);
    assert_eq!(number(d.pmf(0).unwrap()), 0.1);
    assert_eq!(number(d.pmf(1).unwrap()), 0.2);
    assert_eq!(number(d.pmf(2).unwrap()), 0.7);
}

#[test]
fn mass_outside_the_support() {
    let d = from_probabilities(&[0.1, 0.2, 0.7]);
    let outside = Err(Error::Precondition(Precondition::OutsideSupport));
    assert_eq!(d.pmf(3), outside);
    assert_eq!(d.pmf(4), outside);
    assert_eq!(d.pmf(usize::MAX), outside);
}

#[test]
fn cumulative_probability_is_not_provided() {
    let d = from_probabilities(&[0.5, 0.5]);
    assert_eq!(d.cdf(0), Err(Error::Unimplemented));
    assert_eq!(d.cdf(7), Err(Error::Unimplemented));
}

#[test]
fn a_single_mode() {
    assert_eq!(from_probabilities(&[0.7, 0.2, 0.1]).modes(), vec![0]);
    assert_eq!(from_probabilities(&[0.2, 0.7, 0.1]).modes(), vec![1]);
    assert_eq!(from_probabilities(&[0.1, 0.2, 0.7]).modes(), vec![2]);
    assert_eq!(from_probabilities(&[1.0]).modes(), vec![0]);
}

#[test]
fn tied_modes_in_ascending_order() {
    assert_eq!(from_probabilities(&[0.4, 0.2, 0.4]).modes(), vec![0, 2]);
    assert_eq!(from_probabilities(&[0.1, 0.3, 0.3, 0.3]).modes(), vec![1, 2, 3]);
    assert_eq!(from_probabilities(&[0.3, 0.1, 0.3, 0.0, 0.3]).modes(), vec![0, 2, 4]);
}

#[test]
fn a_later_maximum_replaces_earlier_ties() {
    assert_eq!(from_probabilities(&[0.2, 0.2, 0.1, 0.5]).modes(), vec![3]);
    assert_eq!(from_probabilities(&[0.1, 0.1, 0.3, 0.2, 0.3]).modes(), vec![2, 4]);
}

#[test]
fn ties_need_the_same_number_exactly() {
    let below = 0.5 - f64::EPSILON / 4.0;
    assert_eq!(from_probabilities(&[0.5, below]).modes(), vec![0]);
    assert_eq!(from_probabilities(&[below, 0.5]).modes(), vec![1]);
    assert_eq!(from_probabilities(&[0.0, -0.0]).modes(), vec![0, 1]);
}

#[test]
fn no_outcomes() {
    assert_eq!(Categorical::new(Vec::new()).err(), Some(rejected(Domain::NonEmpty)));
    assert_eq!(from_weights(&[]).err(), Some(rejected(Domain::NonEmpty)));
}

#[test]
fn weights_below_zero() {
    assert_eq!(from_weights(&[1.0, -1.0, 2.0]).err(), Some(rejected(Domain::NonNegativeReal)));
    assert_eq!(from_weights(&[-0.5]).err(), Some(rejected(Domain::NonNegativeReal)));
}

#[test]
fn weights_that_are_not_finite_numbers() {
    let nan = [num(1.0), num(f64::NAN)];
    assert_eq!(
        Probability::check_weights(&nan.to_vec(), num(f64::NAN)),
        Err(rejected(Domain::NonNegativeReal))
    );
    let infinite = [num(f64::INFINITY), num(1.0)];
    assert_eq!(
        Probability::check_weights(&infinite.to_vec(), num(f64::INFINITY)),
        Err(rejected(Domain::NonNegativeReal))
    );
}

#[test]
fn weights_without_a_positive_total() {
    assert_eq!(from_weights(&[0.0, 0.0]).err(), Some(rejected(Domain::PositiveSum)));
    let huge = [num(f64::MAX), num(f64::MAX)];
    assert_eq!(
        Probability::check_weights(&huge.to_vec(), num(f64::MAX + f64::MAX)),
        Err(rejected(Domain::PositiveSum))
    );
}

#[test]
fn the_first_failure_is_reported() {
    // a weight below zero is found before the total is looked at
    let weights = [num(-1.0), num(1.0)];
    assert_eq!(
        Probability::check_weights(&weights.to_vec(), num(0.0)),
        Err(rejected(Domain::NonNegativeReal))
    );
    assert_eq!(
        Probability::check_weights(&Vec::new(), num(-1.0)),
        Err(rejected(Domain::NonEmpty))
    );
}

#[test]
fn quotients_must_match_the_weights() {
    let weights = vec![num(1.0), num(3.0)];
    let short = vec![num(0.25)];
    assert_eq!(
        Probability::normalised(&weights, num(4.0), &short),
        Err(rejected(Domain::ShapeMatch))
    );
    let above = vec![num(0.25), num(1.5)];
    assert_eq!(
        Probability::normalised(&weights, num(4.0), &above),
        Err(rejected(Domain::Probability))
    );
    let nan = vec![num(f64::NAN), num(0.75)];
    assert_eq!(
        Probability::normalised(&weights, num(4.0), &nan),
        Err(rejected(Domain::Probability))
    );
    // the weights are looked at before the quotients
    let negative = vec![num(-1.0), num(3.0)];
    assert_eq!(
        Probability::normalised(&negative, num(2.0), &short),
        Err(rejected(Domain::NonNegativeReal))
    );
}

#[test]
fn normalised_holds_the_quotients() {
    let weights = vec![num(1.0), num(3.0)];
    let quotients = vec![num(0.25), num(0.75)];
    let ps = Probability::normalised(&weights, num(4.0), &quotients).unwrap();
    let numbers: Vec<f64> = ps.iter().map(|p| number(*p)).collect();
    assert_eq!(numbers, vec![0.25, 0.75]);
}

#[test]
fn accepted_weights() {
    let weights = [num(0.0), num(2.0), num(-0.0)];
    assert_eq!(Probability::check_weights(&weights.to_vec(), num(2.0)), Ok(()));
}

#[test]
fn a_copy_holds_the_same_probabilities() {
    let d = from_probabilities(&[0.25, 0.75]);
    let copy = d.clone();
    assert_eq!(stored(&copy), stored(&d));
    assert_eq!(copy.modes(), vec![1]);
}
