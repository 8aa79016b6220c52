//! Distributions over a single number, and the integer helpers that the
//! counting distributions share.

use vstd::prelude::*;
use vstd::arithmetic::div_mod::lemma_div_by_multiple;
use vstd::arithmetic::mul::lemma_mul_upper_bound;
use crate::error::Error;

pub mod normal;
pub mod student_t;

verus! {

/// `n! = 1 * 2 * ... * n`.
pub open spec fn factorial_of(n: nat) -> nat
    decreases n,
{
    if n == 0 {
        1
    } else {
        n * factorial_of((n - 1) as nat)
    }
}

/// The binomial coefficient: the number of ways to pick `k` of `n` things,
/// by Pascal's rule.
pub open spec fn binomial(n: nat, k: nat) -> nat
    decreases n,
{
    if k == 0 {
        1
    } else if n == 0 {
        0
    } else {
        binomial((n - 1) as nat, (k - 1) as nat) + binomial((n - 1) as nat, k)
    }
}

/// The factorial never shrinks and is never zero.
pub proof fn lemma_factorial_increases(a: nat, b: nat)
    requires
        a <= b,
    ensures
        1 <= factorial_of(a) <= factorial_of(b),
    decreases b,
{
    if a == 0 {
        if b > 0 {
            lemma_factorial_increases(0, (b - 1) as nat);
            assert(factorial_of((b - 1) as nat) <= b * factorial_of((b - 1) as nat))
                by (nonlinear_arith)
                requires
                    b >= 1,
            ;
        }
    } else if a < b {
        lemma_factorial_increases(a, (b - 1) as nat);
        assert(factorial_of((b - 1) as nat) <= b * factorial_of((b - 1) as nat))
            by (nonlinear_arith)
            requires
                b >= 1,
        ;
    } else {
        lemma_factorial_increases((a - 1) as nat, (a - 1) as nat);
        assert(1 <= a * factorial_of((a - 1) as nat)) by (nonlinear_arith)
            requires
                a >= 1,
                factorial_of((a - 1) as nat) >= 1,
        ;
    }
}

/// There is no way to pick more than there is.
pub proof fn lemma_binomial_beyond(n: nat, k: nat)
    requires
        k > n,
    ensures
        binomial(n, k) == 0,
    decreases n,
{
    if n > 0 {
        lemma_binomial_beyond((n - 1) as nat, (k - 1) as nat);
        lemma_binomial_beyond((n - 1) as nat, k);
    }
}

/// There is one way to pick everything.
pub proof fn lemma_binomial_all(n: nat)
    ensures
        binomial(n, n) == 1,
    decreases n,
{
    if n > 0 {
        lemma_binomial_all((n - 1) as nat);
        lemma_binomial_beyond((n - 1) as nat, n);
    }
}

/// Picking `k` is leaving `n - k`.
pub proof fn lemma_binomial_symmetric(n: nat, k: nat)
    requires
        k <= n,
    ensures
        binomial(n, k) == binomial(n, (n - k) as nat),
    decreases n,
{
    if k == 0 || k == n {
        lemma_binomial_all(n);
    } else {
        lemma_binomial_symmetric((n - 1) as nat, (k - 1) as nat);
        lemma_binomial_symmetric((n - 1) as nat, k);
    }
}

/// The step from one coefficient of a row to the next:
/// `(k + 1) * C(n, k + 1) == (n - k) * C(n, k)`.
pub proof fn lemma_binomial_step(n: nat, k: nat)
    ensures
        (k + 1) * binomial(n, k + 1) == (n - k) * binomial(n, k),
    decreases n,
{
    let kk = k as int;
    let nn = n as int;
    let x = binomial(n, k) as int;
    let y = binomial(n, k + 1) as int;
    if n == 0 {
        assert(y == 0);
        assert(k > 0 ==> x == 0);
        assert((kk + 1) * y == (nn - kk) * x) by (nonlinear_arith)
            requires
                y == 0,
                nn == 0,
                kk > 0 ==> x == 0,
                kk >= 0,
        ;
    } else if k == 0 {
        lemma_binomial_step((n - 1) as nat, 0);
        let z = binomial((n - 1) as nat, 1) as int;
        assert(binomial((n - 1) as nat, 0) == 1);
        assert((0 + 1) * z == (nn - 1 - 0) * 1);
        assert(y == 1 + z);
        assert(x == 1);
        assert((kk + 1) * y == (nn - kk) * x) by (nonlinear_arith)
            requires
                kk == 0,
                x == 1,
                y == nn,
        ;
    } else {
        let a = binomial((n - 1) as nat, (k - 1) as nat) as int;
        let b = binomial((n - 1) as nat, k) as int;
        let c = binomial((n - 1) as nat, k + 1) as int;
        lemma_binomial_step((n - 1) as nat, k);
        lemma_binomial_step((n - 1) as nat, (k - 1) as nat);
        assert((kk + 1) * c == (nn - 1 - kk) * b);
        assert(kk * b == (nn - kk) * a);
        assert(y == b + c);
        assert(x == a + b);
        assert((kk + 1) * y == (nn - kk) * x) by (nonlinear_arith)
            requires
                (kk + 1) * c == (nn - 1 - kk) * b,
                kk * b == (nn - kk) * a,
                y == b + c,
                x == a + b,
        ;
    }
}

/// In the first half of a row the coefficients do not fall.
pub proof fn lemma_binomial_rises(n: nat, i: nat, j: nat)
    requires
        i <= j,
        2 * j <= n,
    ensures
        binomial(n, i) <= binomial(n, j),
    decreases j - i,
{
    if i < j {
        lemma_binomial_rises(n, i + 1, j);
        lemma_binomial_step(n, i);
        let x = binomial(n, i) as int;
        let y = binomial(n, i + 1) as int;
        let ii = i as int;
        let nn = n as int;
        assert(x <= y) by (nonlinear_arith)
            requires
                (ii + 1) * y == (nn - ii) * x,
                ii + 1 <= nn - ii,
                0 <= ii,
                0 <= x,
                0 <= y,
        ;
    }
}

/// `n!`, or an overflow failure when it does not fit in 64 bits.
pub fn factorial(n: u64) -> (r: Result<u64, Error>)
    ensures
        factorial_of(n as nat) <= u64::MAX ==> r == Ok::<u64, Error>(factorial_of(n as nat) as u64),
        factorial_of(n as nat) > u64::MAX ==> r == Err::<u64, Error>(Error::Overflow),
{
    let mut product: u64 = 1;
    let mut i: u64 = 0;
    while i < n
        invariant
            i <= n,
            product == factorial_of(i as nat),
        decreases n - i,
    {
        i += 1;
        assert(factorial_of(i as nat) == product * i) by (nonlinear_arith)
            requires
                factorial_of(i as nat) == i * factorial_of((i - 1) as nat),
                product == factorial_of((i - 1) as nat),
        ;
        match product.checked_mul(i) {
            Some(next) => {
                product = next;
            },
            None => {
                proof {
                    lemma_factorial_increases(i as nat, n as nat);
                }
                return Err(Error::Overflow);
            },
        }
    }
    Ok(product)
}

/// The binomial coefficient `C(n, k)`, or an overflow failure when it does
/// not fit in 64 bits.  It is zero when `k` exceeds `n`.
pub fn binomial_coefficient(n: u64, k: u64) -> (r: Result<u64, Error>)
    ensures
        binomial(n as nat, k as nat) <= u64::MAX ==> r == Ok::<u64, Error>(
            binomial(n as nat, k as nat) as u64,
        ),
        binomial(n as nat, k as nat) > u64::MAX ==> r == Err::<u64, Error>(Error::Overflow),
{
    if k > n {
        proof {
            lemma_binomial_beyond(n as nat, k as nat);
        }
        return Ok(0);
    }
    // work in the rising half of the row
    let m: u64 = if k <= n - k {
        k
    } else {
        n - k
    };
    proof {
        lemma_binomial_symmetric(n as nat, k as nat);
    }
    let mut c: u64 = 1;
    let mut i: u64 = 0;
    while i < m
        invariant
            i <= m,
            2 * m <= n,
            c == binomial(n as nat, i as nat),
            binomial(n as nat, k as nat) == binomial(n as nat, m as nat),
        decreases m - i,
    {
        let rest: u64 = n - i;
        let step: u64 = i + 1;
        proof {
            lemma_binomial_step(n as nat, i as nat);
            lemma_mul_upper_bound(c as int, u64::MAX as int, rest as int, u64::MAX as int);
            assert(u64::MAX * u64::MAX <= u128::MAX) by (nonlinear_arith);
            lemma_div_by_multiple(binomial(n as nat, (i + 1) as nat) as int, step as int);
            assert((i + 1) * binomial(n as nat, (i + 1) as nat) == binomial(n as nat, (i + 1) as nat)
                * (i + 1)) by (nonlinear_arith);
            assert((n - i) * binomial(n as nat, i as nat) == c * rest) by (nonlinear_arith)
                requires
                    c == binomial(n as nat, i as nat),
                    rest == n - i,
            ;
        }
        let wide: u128 = (c as u128) * (rest as u128);
        let next: u128 = wide / (step as u128);
        assert(next == binomial(n as nat, (i + 1) as nat));
        if next > u64::MAX as u128 {
            proof {
                lemma_binomial_rises(n as nat, (i + 1) as nat, m as nat);
            }
            return Err(Error::Overflow);
        }
        c = next as u64;
        i += 1;
    }
    Ok(c)
}

} // verus!
