use rstat::error::{Domain, Error, Moment, Precondition};
use rstat::probability::Probability;
use rstat::scalar::Real;
use rstat::univariate::student_t::StudentT;
use spaces::{Card, Dim, Space};

fn num(x: f64) -> Real {
    Real::from_bits(x.to_bits())
}

fn student(nu: f64) -> StudentT {
    StudentT::new(num(nu)).unwrap()
}

fn number(x: Real) -> f64 {
    f64::from_bits(x.to_bits())
}

fn undefined(moment: Moment) -> Error {
    Error::Precondition(Precondition::Undefined(moment))
}

fn infinite(moment: Moment) -> Error {
    Error::Precondition(Precondition::Infinite(moment))
}

#[test]
fn degrees_of_freedom_must_be_positive() {
    let rejected = Error::ParameterDomain { parameter: "nu", domain: Domain::PositiveReal };
    for nu in [0.0, -0.0, -1.0, f64::NAN, f64::INFINITY, f64::NEG_INFINITY] {
        assert_eq!(StudentT::new(num(nu)), Err(rejected), "{}", nu);
    }
    for nu in [5e-324, 0.5, 1.0, 1.5, 10.0, 1e300] {
        assert_eq!(number(student(nu).nu()), nu);
    }
}

#[test]
fn unchecked_construction() {
    let d = StudentT::new_unchecked(num(2.5));
    assert_eq!(number(d.nu()), 2.5);
    assert_eq!(d, student(2.5));
}

#[test]
fn one_degree_has_no_mean() {
    assert_eq!(student(1.0).mean(), Err(undefined(Moment::Mean)));
    assert_eq!(student(0.5).mean(), Err(undefined(Moment::Mean)));
    assert_eq!(student(1.0000000000000002).mean().map(number), Ok(0.0));
}

#[test]
fn two_degrees_have_no_finite_variance() {
    assert_eq!(student(2.0).check_variance(), Err(infinite(Moment::Variance)));
    assert_eq!(student(1.5).check_variance(), Err(infinite(Moment::Variance)));
    assert_eq!(student(1.0000000000000002).check_variance(), Err(infinite(Moment::Variance)));
    assert_eq!(student(1.0).check_variance(), Err(undefined(Moment::Variance)));
    assert_eq!(student(0.25).check_variance(), Err(undefined(Moment::Variance)));
    assert_eq!(student(2.0000000000000004).check_variance(), Ok(()));
}

#[test]
fn three_degrees_have_no_skewness() {
    assert_eq!(student(3.0).skewness(), Err(undefined(Moment::Skewness)));
    assert_eq!(student(1.0).skewness(), Err(undefined(Moment::Skewness)));
    assert_eq!(student(3.0000000000000004).skewness().map(number), Ok(0.0));
}

#[test]
fn four_degrees_have_no_finite_excess_kurtosis() {
    assert_eq!(student(4.0).check_excess_kurtosis(), Err(infinite(Moment::ExcessKurtosis)));
    assert_eq!(student(3.0).check_excess_kurtosis(), Err(infinite(Moment::ExcessKurtosis)));
    assert_eq!(student(2.0).check_excess_kurtosis(), Err(undefined(Moment::ExcessKurtosis)));
    assert_eq!(student(1.0).check_excess_kurtosis(), Err(undefined(Moment::ExcessKurtosis)));
    assert_eq!(student(4.000000000000001).check_excess_kurtosis(), Ok(()));
}

#[test]
fn ten_degrees_have_every_moment() {
    let d = student(10.0);
    assert_eq!(d.mean().map(number), Ok(0.0));
    assert_eq!(d.check_variance(), Ok(()));
    assert_eq!(d.skewness().map(number), Ok(0.0));
    assert_eq!(d.check_excess_kurtosis(), Ok(()));
    let nu = number(d.nu());
    assert_eq!(nu / (nu - 2.0), 1.25);
    assert_eq!(6.0 / (nu - 4.0), 1.0);
}

#[test]
fn one_and_a_half_degrees() {
    let d = StudentT::new(num(1.5));
    assert!(d.is_ok());
    assert_eq!(d.unwrap().check_variance(), Err(infinite(Moment::Variance)));
}

#[test]
fn symmetric_about_zero() {
    for nu in [0.5, 1.0, 3.0, 30.0] {
        let d = student(nu);
        assert_eq!(number(d.median()), 0.0);
        let modes: Vec<f64> = d.modes().into_iter().map(number).collect();
        assert_eq!(modes, vec![0.0]);
    }
}

#[test]
fn quantiles_are_not_provided() {
    let half = Probability::new(num(0.5)).unwrap();
    assert_eq!(student(5.0).quantile(half), Err(Error::Unimplemented));
}

#[test]
fn the_support_is_the_real_line() {
    let support = student(5.0).support();
    assert_eq!(support.card(), Card::Infinite);
    assert_eq!(support.dim(), Dim::Finite(1));
}
