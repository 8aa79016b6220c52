use rstat::error::{Domain, Error};
use rstat::probability::Probability;
use rstat::scalar::Real;

fn num(x: f64) -> Real {
    Real::from_bits(x.to_bits())
}

fn number(p: Probability) -> f64 {
    f64::from_bits(p.value().to_bits())
}

fn out_of_range() -> Error {
    Error::ParameterDomain { parameter: "p", domain: Domain::Probability }
}

#[test]
fn accepts_the_unit_interval() {
    for x in [0.0, -0.0, 5e-324, 0.3, 0.5, 0.9999999999999999, 1.0] {
        let p = Probability::new(num(x)).unwrap();
        assert_eq!(p.value().to_bits(), x.to_bits());
    }
}

#[test]
fn rejects_what_lies_outside() {
    for x in [-0.1, -5e-324, 1.0000000000000002, 2.0, f64::INFINITY, f64::NEG_INFINITY, f64::NAN] {
        assert_eq!(Probability::new(num(x)), Err(out_of_range()), "{}", x);
    }
}

#[test]
fn unchecked_keeps_the_number() {
    let p = Probability::new_unchecked(num(0.75));
    assert_eq!(number(p), 0.75);
}

#[test]
fn the_two_zeros_are_the_same_probability() {
    let plus = Probability::new(num(0.0)).unwrap();
    let minus = Probability::new(num(-0.0)).unwrap();
    assert_eq!(plus, minus);
    assert_eq!(minus, Probability::zero());
}

#[test]
fn zero_and_one() {
    assert_eq!(number(Probability::zero()), 0.0);
    assert_eq!(number(Probability::one()), 1.0);
}

#[test]
fn a_sum_above_one_saturates() {
    let a = Probability::new(num(0.6)).unwrap();
    let b = Probability::new(num(0.7)).unwrap();
    let sum = Probability::saturate(num(number(a) + number(b)));
    assert_eq!(sum, Probability::one());
    assert_eq!(number(sum), 1.0);
}

#[test]
fn a_sum_below_one_is_kept() {
    let sum = Probability::saturate(num(0.25 + 0.5));
    assert_eq!(number(sum), 0.75);
}

#[test]
fn a_difference_below_zero_saturates() {
    let d = Probability::saturate(num(0.3 - 0.5));
    assert_eq!(d, Probability::zero());
    assert_eq!(number(Probability::saturate(num(0.5 - 0.25))), 0.25);
}

#[test]
fn a_product_is_kept() {
    assert_eq!(number(Probability::saturate(num(0.5 * 0.5))), 0.25);
}

#[test]
fn a_quotient_above_one_saturates() {
    assert_eq!(number(Probability::saturate(num(0.5 / 0.25))), 1.0);
    assert_eq!(number(Probability::saturate(num(0.25 / 0.5))), 0.5);
    // a positive number divided by zero
    assert_eq!(number(Probability::saturate(num(0.5 / 0.0))), 1.0);
    // zero divided by zero is not a number
    assert_eq!(number(Probability::saturate(num(0.0 / 0.0))), 1.0);
}

#[test]
fn the_complement_of_three_tenths() {
    let p = Probability::new(num(0.3)).unwrap();
    let q = Probability::saturate(num(1.0 - number(p)));
    assert_eq!(number(q), 0.7);
}

#[test]
fn saturation_at_the_edges() {
    assert_eq!(number(Probability::saturate(num(f64::NEG_INFINITY))), 0.0);
    assert_eq!(number(Probability::saturate(num(f64::INFINITY))), 1.0);
    assert_eq!(number(Probability::saturate(num(-5e-324))), 0.0);
    assert_eq!(number(Probability::saturate(num(1.0000000000000002))), 1.0);
    assert_eq!(number(Probability::saturate(num(1.0))), 1.0);
    assert_eq!(Probability::saturate(num(-0.0)).value().to_bits(), (-0.0f64).to_bits());
}

#[test]
fn every_saturated_number_is_a_probability() {
    for x in [-3.0, -0.0, 0.0, 0.2, 1.0, 1.5, f64::MAX, f64::NAN, f64::INFINITY] {
        let v = number(Probability::saturate(num(x)));
        assert!(0.0 <= v && v <= 1.0, "{}", x);
    }
}

#[test]
fn probabilities_are_ordered_as_numbers() {
    let xs = [0.0, 0.1, 0.25, 0.5, 1.0];
    for a in xs {
        for b in xs {
            let pa = Probability::new(num(a)).unwrap();
            let pb = Probability::new(num(b)).unwrap();
            assert_eq!(pa < pb, a < b);
            assert_eq!(pa <= pb, a <= b);
            assert_eq!(pa > pb, a > b);
            assert_eq!(pa == pb, a == b);
            assert_eq!(pa.partial_cmp(&pb), a.partial_cmp(&b));
        }
    }
}
