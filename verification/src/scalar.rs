//! Real scalars, held as IEEE 754 binary64 data.
//!
//! A [`Real`] is the 64-bit pattern of a binary64 datum: one sign bit, eleven
//! exponent bits and fifty-two fraction bits.  The library never does
//! arithmetic on such a datum; it classifies it, orders it and carries it.
//! Every finite binary64 value is an integer multiple of `2^-1074`, so the
//! mathematical model of a datum is that integer, [`Real::scaled`], and the
//! order of two data is the order of their scaled integers.

use std::cmp::Ordering;
use vstd::prelude::*;
use vstd::std_specs::cmp::{PartialEqSpecImpl, PartialOrdSpecImpl};
use vstd::arithmetic::mul::{lemma_mul_inequality, lemma_mul_strict_inequality};
use vstd::arithmetic::power2::{
    lemma2_to64, lemma2_to64_rest, lemma_pow2_adds, lemma_pow2_pos,
    lemma_pow2_strictly_increases, lemma_pow2_unfold, pow2,
};

verus! {

/// `2^52`, the weight of the implicit leading bit of a normal significand.
pub const HIDDEN_BIT: u64 = 0x0010_0000_0000_0000;

/// The sign bit of a binary64 pattern.
pub const SIGN_BIT: u64 = 0x8000_0000_0000_0000;

/// The pattern of positive infinity; every larger magnitude is a NaN.
pub const INFINITY_BITS: u64 = 0x7FF0_0000_0000_0000;

/// The pattern of `1.0`.
pub const ONE_BITS: u64 = 0x3FF0_0000_0000_0000;

/// The pattern of `2.0`.
pub const TWO_BITS: u64 = 0x4000_0000_0000_0000;

/// The pattern of `3.0`.
pub const THREE_BITS: u64 = 0x4008_0000_0000_0000;

/// The pattern of `4.0`.
pub const FOUR_BITS: u64 = 0x4010_0000_0000_0000;

/// The scaled integer of `1.0`: `2^1074`.
pub open spec fn unit() -> nat {
    pow2(1074)
}

/// The value of a sign-free pattern `m`, in units of `2^-1074`.
///
/// A pattern with exponent field `e` and fraction field `f` stands for
/// `f * 2^-1074` when `e == 0` (zero and the subnormals) and for
/// `(2^52 + f) * 2^(e - 1075)` otherwise.  The pattern of infinity gets
/// `2^1024` by the same formula, one binade above every finite value.
pub open spec fn scaled_magnitude(m: u64) -> nat {
    let e = m / HIDDEN_BIT;
    let f = m % HIDDEN_BIT;
    if e == 0 {
        f as nat
    } else {
        ((HIDDEN_BIT + f) * pow2((e - 1) as nat)) as nat
    }
}

/// A binary64 datum, identified by its bit pattern.
///
/// `==`, `<` and their kin compare data as numbers: `-0.0` equals `0.0`,
/// and a NaN is neither equal to nor ordered with anything, itself included.
#[derive(Clone, Copy, Debug)]
pub struct Real {
    pub bits: u64,
}

impl PartialEq for Real {
    fn eq(&self, other: &Real) -> (b: bool) {
        proof {
            lemma_rank_orders_values(*self, *other);
        }
        !self.is_nan() && !other.is_nan() && self.order_key() == other.order_key()
    }
}

impl PartialEqSpecImpl for Real {
    open spec fn obeys_eq_spec() -> bool {
        true
    }

    open spec fn eq_spec(&self, other: &Real) -> bool {
        self.equal(*other)
    }
}

impl PartialOrd for Real {
    fn partial_cmp(&self, other: &Real) -> (o: Option<Ordering>) {
        proof {
            lemma_rank_orders_values(*self, *other);
        }
        if self.is_nan() || other.is_nan() {
            None
        } else if self.order_key() < other.order_key() {
            Some(Ordering::Less)
        } else if self.order_key() == other.order_key() {
            Some(Ordering::Equal)
        } else {
            Some(Ordering::Greater)
        }
    }
}

impl PartialOrdSpecImpl for Real {
    open spec fn obeys_partial_cmp_spec() -> bool {
        true
    }

    open spec fn partial_cmp_spec(&self, other: &Real) -> Option<Ordering> {
        self.compared(*other)
    }
}

impl Real {
    /// The datum with the given pattern.
    pub open spec fn with_bits(bits: u64) -> Real {
        Real { bits }
    }

    /// The sign bit is set.
    pub open spec fn sign(self) -> bool {
        self.bits >= SIGN_BIT
    }

    /// The pattern with its sign bit cleared.
    pub open spec fn magnitude_bits(self) -> u64 {
        if self.bits >= SIGN_BIT {
            (self.bits - SIGN_BIT) as u64
        } else {
            self.bits
        }
    }

    /// The datum is not a number.
    pub open spec fn nan(self) -> bool {
        self.magnitude_bits() > INFINITY_BITS
    }

    /// The datum is a number other than the two infinities.
    pub open spec fn finite(self) -> bool {
        self.magnitude_bits() < INFINITY_BITS
    }

    /// The value in units of `2^-1074`; meaningful unless the datum is a NaN.
    /// The infinities are placed at `2^1024` and `-2^1024`.
    pub open spec fn scaled(self) -> int {
        if self.sign() {
            -(scaled_magnitude(self.magnitude_bits()) as int)
        } else {
            scaled_magnitude(self.magnitude_bits()) as int
        }
    }

    /// The sign-and-magnitude reading of the pattern as an integer.
    pub open spec fn rank(self) -> int {
        if self.sign() {
            -(self.magnitude_bits() as int)
        } else {
            self.magnitude_bits() as int
        }
    }

    /// How `self` stands to `other` as a number; nothing if either is a NaN.
    pub open spec fn compared(self, other: Real) -> Option<Ordering> {
        if self.nan() || other.nan() {
            None
        } else if self.scaled() < other.scaled() {
            Some(Ordering::Less)
        } else if self.scaled() == other.scaled() {
            Some(Ordering::Equal)
        } else {
            Some(Ordering::Greater)
        }
    }

    /// Both data are numbers and have the same value.
    pub open spec fn equal(self, other: Real) -> bool {
        !self.nan() && !other.nan() && self.scaled() == other.scaled()
    }

    /// A finite number greater than zero.
    pub open spec fn positive(self) -> bool {
        self.finite() && self.scaled() > 0
    }

    /// A finite number not below zero (`-0.0` included).
    pub open spec fn non_negative(self) -> bool {
        self.finite() && self.scaled() >= 0
    }

    /// A number in the closed interval from zero to one.
    pub open spec fn in_unit_interval(self) -> bool {
        !self.nan() && 0 <= self.scaled() <= unit()
    }

    pub fn from_bits(bits: u64) -> (r: Real)
        ensures
            r.bits == bits,
    {
        Real { bits }
    }

    pub fn to_bits(&self) -> (bits: u64)
        ensures
            bits == self.bits,
    {
        self.bits
    }

    pub fn zero() -> (r: Real)
        ensures
            r.bits == 0,
            r.finite(),
            r.scaled() == 0,
    {
        Real { bits: 0 }
    }

    pub fn one() -> (r: Real)
        ensures
            r.bits == ONE_BITS,
            r.positive(),
            r.scaled() == unit(),
    {
        proof {
            lemma_small_integers();
            lemma_pow2_pos(1074);
        }
        Real { bits: ONE_BITS }
    }

    pub fn is_sign_negative(&self) -> (b: bool)
        ensures
            b == self.sign(),
    {
        self.bits >= SIGN_BIT
    }

    /// The pattern without its sign bit.
    pub fn abs_bits(&self) -> (m: u64)
        ensures
            m == self.magnitude_bits(),
            m < SIGN_BIT,
    {
        if self.bits >= SIGN_BIT {
            self.bits - SIGN_BIT
        } else {
            self.bits
        }
    }

    pub fn is_nan(&self) -> (b: bool)
        ensures
            b == self.nan(),
    {
        self.abs_bits() > INFINITY_BITS
    }

    pub fn is_finite(&self) -> (b: bool)
        ensures
            b == self.finite(),
    {
        self.abs_bits() < INFINITY_BITS
    }

    pub fn is_infinite(&self) -> (b: bool)
        ensures
            b == (!self.nan() && !self.finite()),
    {
        self.abs_bits() == INFINITY_BITS
    }

    /// The sign-and-magnitude integer of the pattern, by which numbers are
    /// ordered: see [`lemma_rank_orders_values`].
    pub fn order_key(&self) -> (k: i64)
        ensures
            k == self.rank(),
    {
        let m: u64 = self.abs_bits();
        if self.bits >= SIGN_BIT {
            -(m as i64)
        } else {
            m as i64
        }
    }

    /// A finite number above zero.
    pub fn is_positive(&self) -> (b: bool)
        ensures
            b == self.positive(),
    {
        proof {
            lemma_rank_orders_values(*self, Real::with_bits(0));
        }
        self.bits > 0 && self.bits < INFINITY_BITS
    }

    /// A number between zero and one, both included.
    pub fn is_in_unit_interval(&self) -> (b: bool)
        ensures
            b == self.in_unit_interval(),
    {
        proof {
            lemma_rank_orders_values(*self, Real::with_bits(0));
            lemma_rank_orders_values(*self, Real::with_bits(ONE_BITS));
            lemma_small_integers();
        }
        self.bits <= ONE_BITS || self.bits == SIGN_BIT
    }

    /// A finite number not below zero.
    pub fn is_non_negative(&self) -> (b: bool)
        ensures
            b == self.non_negative(),
    {
        proof {
            lemma_rank_orders_values(*self, Real::with_bits(0));
        }
        self.bits < INFINITY_BITS || self.bits == SIGN_BIT
    }
}

/// A larger sign-free pattern stands for a larger magnitude.
pub proof fn lemma_scaled_magnitude_increases(a: u64, b: u64)
    requires
        a < b,
    ensures
        scaled_magnitude(a) < scaled_magnitude(b),
{
    let ea = (a / HIDDEN_BIT) as int;
    let fa = (a % HIDDEN_BIT) as int;
    let eb = (b / HIDDEN_BIT) as int;
    let fb = (b % HIDDEN_BIT) as int;
    let h = HIDDEN_BIT as int;
    assert(ea <= eb);
    if eb == 0 {
        assert(fa < fb);
    } else {
        let pb = pow2((eb - 1) as nat) as int;
        lemma_pow2_pos((eb - 1) as nat);
        // the smallest magnitude of b's binade
        assert(h * pb <= (h + fb) * pb) by {
            lemma_mul_inequality(h, h + fb, pb);
        }
        if ea == eb {
            assert(fa < fb);
            lemma_mul_strict_inequality(h + fa, h + fb, pb);
        } else if ea == 0 {
            assert(h * 1 <= h * pb) by {
                lemma_mul_inequality(1, pb, h);
                assert(1 * h == h * 1);
                assert(pb * h == h * pb) by (nonlinear_arith);
            }
        } else {
            let pa = pow2((ea - 1) as nat) as int;
            lemma_pow2_pos((ea - 1) as nat);
            lemma_pow2_unfold(ea as nat);
            assert((h + fa) * pa < (2 * h) * pa) by {
                lemma_mul_strict_inequality(h + fa, 2 * h, pa);
            }
            assert((2 * h) * pa == h * (2 * pa)) by (nonlinear_arith);
            assert(2 * pa <= pb) by {
                if ea < eb - 1 {
                    lemma_pow2_strictly_increases(ea as nat, (eb - 1) as nat);
                }
            }
            assert(h * (2 * pa) <= h * pb) by (nonlinear_arith)
                requires
                    2 * pa <= pb,
                    h >= 0,
            ;
        }
    }
}

/// The order of two numbers is the order of their sign-and-magnitude
/// integers, with the two zeros in one place.
pub proof fn lemma_rank_orders_values(a: Real, b: Real)
    ensures
        (a.rank() < b.rank()) == (a.scaled() < b.scaled()),
        (a.rank() == b.rank()) == (a.scaled() == b.scaled()),
        (a.rank() <= b.rank()) == (a.scaled() <= b.scaled()),
{
    let ma = a.magnitude_bits();
    let mb = b.magnitude_bits();
    if ma < mb {
        lemma_scaled_magnitude_increases(ma, mb);
    } else if mb < ma {
        lemma_scaled_magnitude_increases(mb, ma);
    }
    if 0 < ma {
        lemma_scaled_magnitude_increases(0, ma);
    }
    if 0 < mb {
        lemma_scaled_magnitude_increases(0, mb);
    }
    assert(scaled_magnitude(0) == 0);
}

/// The patterns of `1.0`, `2.0`, `3.0` and `4.0` stand for one, two, three
/// and four units.
pub proof fn lemma_small_integers()
    ensures
        Real::with_bits(0).scaled() == 0,
        Real::with_bits(ONE_BITS).scaled() == unit(),
        Real::with_bits(TWO_BITS).scaled() == 2 * unit(),
        Real::with_bits(THREE_BITS).scaled() == 3 * unit(),
        Real::with_bits(FOUR_BITS).scaled() == 4 * unit(),
{
    lemma2_to64();
    lemma2_to64_rest();
    let h = HIDDEN_BIT as int;
    assert(pow2(52) == h);
    lemma_pow2_adds(52, 1022);
    lemma_pow2_unfold(1023);
    lemma_pow2_unfold(1024);
    let p = pow2(1022) as int;
    assert(pow2(1023) == 2 * p);
    assert(pow2(1024) == 4 * p);
    assert(unit() == h * p);
    assert(ONE_BITS / HIDDEN_BIT == 1023 && ONE_BITS % HIDDEN_BIT == 0);
    assert(TWO_BITS / HIDDEN_BIT == 1024 && TWO_BITS % HIDDEN_BIT == 0);
    assert(THREE_BITS / HIDDEN_BIT == 1024 && THREE_BITS % HIDDEN_BIT == 0x8_0000_0000_0000);
    assert(FOUR_BITS / HIDDEN_BIT == 1025 && FOUR_BITS % HIDDEN_BIT == 0);
    assert(h * (2 * p) == 2 * (h * p)) by (nonlinear_arith);
    assert(h * (4 * p) == 4 * (h * p)) by (nonlinear_arith);
    assert((h + 0x8_0000_0000_0000) * (2 * p) == 3 * (h * p)) by (nonlinear_arith)
        requires
            h == 0x10_0000_0000_0000,
    ;
}

} // verus!
