use rstat::error::{Domain, Error};
use rstat::scalar::Real;
use rstat::univariate::normal::Normal;
use spaces::{Card, Space};

fn num(x: f64) -> Real {
    Real::from_bits(x.to_bits())
}

fn number(x: Real) -> f64 {
    f64::from_bits(x.to_bits())
}

#[test]
fn the_deviation_must_be_positive() {
    let rejected = Error::ParameterDomain { parameter: "sigma", domain: Domain::PositiveReal };
    for sigma in [0.0, -1.0, f64::NAN, f64::INFINITY] {
        assert_eq!(Normal::new(num(0.0), num(sigma)), Err(rejected), "{}", sigma);
    }
    let d = Normal::new(num(-3.0), num(2.0)).unwrap();
    assert_eq!(number(d.mu()), -3.0);
    assert_eq!(number(d.sigma()), 2.0);
    assert_eq!(d, Normal::new_unchecked(num(-3.0), num(2.0)));
}

#[test]
fn the_standard_normal() {
    let d = Normal::standard();
    assert_eq!(number(d.mu()), 0.0);
    assert_eq!(number(d.sigma()), 1.0);
    assert_eq!(d, Normal::new(num(0.0), num(1.0)).unwrap());
}

#[test]
fn mean_median_and_mode_coincide() {
    for mu in [-2.5, 0.0, 7.0] {
        let d = Normal::new(num(mu), num(1.5)).unwrap();
        assert_eq!(number(d.mean()), mu);
        assert_eq!(number(d.median()), mu);
        let modes: Vec<f64> = d.modes().into_iter().map(number).collect();
        assert_eq!(modes, vec![mu]);
    }
}

#[test]
fn the_normal_is_not_skewed() {
    let d = Normal::new(num(1.0), num(3.0)).unwrap();
    assert_eq!(number(d.skewness()), 0.0);
    assert_eq!(number(d.excess_kurtosis()), 0.0);
}

#[test]
fn the_normal_lives_on_the_real_line() {
    assert_eq!(Normal::standard().support().card(), Card::Infinite);
}
