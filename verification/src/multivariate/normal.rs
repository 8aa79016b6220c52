//! The multivariate normal distribution: a mean vector and a covariance
//! matrix of matching size.
//!
//! The parameters are checked and kept here.  Factorising the covariance is
//! numerical work that is done elsewhere; its verdict on positive
//! definiteness is an input of [`MultivariateNormal::new`].

use vstd::prelude::*;
use spaces::real::Reals;
use spaces::ProductSpace;
use crate::error::{Domain, Error};
use crate::scalar::{Real, ONE_BITS};
use crate::support::{product_factors, real_product};
use crate::validation::Validator;

verus! {

/// The rows of a matrix that is stored row by row.
pub open spec fn rows(m: Seq<Vec<Real>>) -> Seq<Seq<Real>> {
    Seq::new(m.len(), |i: int| m[i]@)
}

/// `m` has `n` rows of `n` entries each.
pub open spec fn is_square(m: Seq<Seq<Real>>, n: nat) -> bool {
    &&& m.len() == n
    &&& forall|i: int| 0 <= i < n ==> (#[trigger] m[i]).len() == n
}

/// Each entry of the square matrix `m` is a number and equals the entry
/// mirrored across the diagonal.
pub open spec fn is_symmetric(m: Seq<Seq<Real>>) -> bool {
    forall|i: int, j: int|
        0 <= i < m.len() && 0 <= j < m.len() ==> (#[trigger] m[i][j]).equal(#[trigger] m[j][i])
}

/// The vector of `n` entries that all equal `v`.
pub open spec fn constant_vector(n: nat, v: Real) -> Seq<Real> {
    Seq::new(n, |i: int| v)
}

/// The `n` by `n` matrix with `v` on the diagonal and zero elsewhere.
pub open spec fn scaled_identity(n: nat, v: Real) -> Seq<Seq<Real>> {
    Seq::new(
        n,
        |i: int|
            Seq::new(
                n,
                |j: int|
                    if i == j {
                        v
                    } else {
                        Real::with_bits(0)
                    },
            ),
    )
}

/// What [`MultivariateNormal::new`] decides on a covariance matrix for a
/// mean of `n` entries: first the shape, then symmetry together with the
/// verdict on positive definiteness.
pub open spec fn covariance_outcome(n: nat, sigma: Seq<Seq<Real>>, positive_definite: bool) -> Result<
    (),
    Error,
> {
    if !is_square(sigma, n) {
        Err(Error::ParameterDomain { parameter: "sigma", domain: Domain::ShapeMatch })
    } else if !is_symmetric(sigma) || !positive_definite {
        Err(Error::ParameterDomain { parameter: "sigma", domain: Domain::PositiveDefinite })
    } else {
        Ok(())
    }
}

/// A copy of `v`.
pub fn copy_vector(v: &Vec<Real>) -> (copy: Vec<Real>)
    ensures
        copy@ == v@,
{
    let mut copy: Vec<Real> = Vec::new();
    let mut i: usize = 0;
    while i < v.len()
        invariant
            i <= v@.len(),
            copy@ == v@.take(i as int),
        decreases v@.len() - i,
    {
        copy.push(v[i]);
        assert(v@.take(i + 1) == v@.take(i as int).push(v@[i as int]));
        i += 1;
    }
    assert(v@.take(v@.len() as int) == v@);
    copy
}

/// A copy of the matrix `m`.
pub fn copy_matrix(m: &Vec<Vec<Real>>) -> (copy: Vec<Vec<Real>>)
    ensures
        rows(copy@) == rows(m@),
{
    let mut copy: Vec<Vec<Real>> = Vec::new();
    let mut i: usize = 0;
    while i < m.len()
        invariant
            i <= m@.len(),
            copy@.len() == i,
            forall|a: int| 0 <= a < i ==> (#[trigger] copy@[a])@ == m@[a]@,
        decreases m@.len() - i,
    {
        let row = copy_vector(&m[i]);
        copy.push(row);
        i += 1;
    }
    assert(rows(copy@) =~= rows(m@));
    copy
}

/// The vector of `n` entries that all equal `v`.
pub fn filled(n: usize, v: Real) -> (r: Vec<Real>)
    ensures
        r@ == constant_vector(n as nat, v),
{
    let mut r: Vec<Real> = Vec::new();
    let mut i: usize = 0;
    while i < n
        invariant
            i <= n,
            r@.len() == i,
            forall|a: int| 0 <= a < i ==> r@[a] == v,
        decreases n - i,
    {
        r.push(v);
        i += 1;
    }
    assert(r@ =~= constant_vector(n as nat, v));
    r
}

/// The `n` by `n` matrix with `v` on the diagonal and zero elsewhere.
pub fn diagonal(n: usize, v: Real) -> (m: Vec<Vec<Real>>)
    ensures
        rows(m@) == scaled_identity(n as nat, v),
{
    let mut m: Vec<Vec<Real>> = Vec::new();
    let mut i: usize = 0;
    while i < n
        invariant
            i <= n,
            m@.len() == i,
            forall|a: int| 0 <= a < i ==> (#[trigger] m@[a])@ == scaled_identity(n as nat, v)[a],
        decreases n - i,
    {
        let mut row: Vec<Real> = filled(n, Real::zero());
        row.set(i, v);
        assert(row@ =~= scaled_identity(n as nat, v)[i as int]);
        m.push(row);
        i += 1;
    }
    assert(rows(m@) =~= scaled_identity(n as nat, v));
    m
}

/// Whether `m` has `n` rows of `n` entries each.
pub fn has_shape(m: &Vec<Vec<Real>>, n: usize) -> (b: bool)
    ensures
        b == is_square(rows(m@), n as nat),
{
    if m.len() != n {
        return false;
    }
    let mut i: usize = 0;
    while i < n
        invariant
            i <= n,
            m@.len() == n,
            forall|a: int| 0 <= a < i ==> (#[trigger] rows(m@)[a]).len() == n,
        decreases n - i,
    {
        if m[i].len() != n {
            assert(rows(m@)[i as int].len() != n);
            return false;
        }
        i += 1;
    }
    true
}

/// Whether the square matrix `m` is symmetric and free of NaNs.
pub fn mirrors(m: &Vec<Vec<Real>>) -> (b: bool)
    requires
        is_square(rows(m@), m@.len()),
    ensures
        b == is_symmetric(rows(m@)),
{
    let n: usize = m.len();
    let mut i: usize = 0;
    while i < n
        invariant
            i <= n,
            n == m@.len(),
            is_square(rows(m@), n as nat),
            forall|a: int, b: int|
                0 <= a < i && 0 <= b < n ==> (#[trigger] rows(m@)[a][b]).equal(
                    #[trigger] rows(m@)[b][a],
                ),
        decreases n - i,
    {
        let mut j: usize = 0;
        while j < n
            invariant
                i < n,
                j <= n,
                n == m@.len(),
                is_square(rows(m@), n as nat),
                forall|a: int, b: int|
                    0 <= a < i && 0 <= b < n ==> (#[trigger] rows(m@)[a][b]).equal(
                        #[trigger] rows(m@)[b][a],
                    ),
                forall|b: int|
                    0 <= b < j ==> (#[trigger] rows(m@)[i as int][b]).equal(rows(m@)[b][i as int]),
            decreases n - j,
        {
            assert(rows(m@)[i as int].len() == n);
            assert(rows(m@)[j as int].len() == n);
            let x: Real = m[i][j];
            let y: Real = m[j][i];
            if x != y {
                assert(!rows(m@)[i as int][j as int].equal(rows(m@)[j as int][i as int]));
                return false;
            }
            j += 1;
        }
        i += 1;
    }
    true
}

/// A multivariate normal distribution of some dimension `n`: a mean of `n`
/// entries and an `n` by `n` covariance matrix.
#[derive(Debug)]
pub struct MultivariateNormal {
    mu: Vec<Real>,
    sigma: Vec<Vec<Real>>,
}

impl Clone for MultivariateNormal {
    fn clone(&self) -> (copy: Self)
        ensures
            copy.mean_vector() == self.mean_vector(),
            copy.covariance_matrix() == self.covariance_matrix(),
    {
        proof {
            use_type_invariant(self);
        }
        let mu = copy_vector(&self.mu);
        let sigma = copy_matrix(&self.sigma);
        MultivariateNormal { mu, sigma }
    }
}

impl MultivariateNormal {
    #[verifier::type_invariant]
    spec fn shapes_agree(self) -> bool {
        is_square(rows(self.sigma@), self.mu@.len())
    }

    /// The mean, entry by entry.
    pub closed spec fn mean_vector(&self) -> Seq<Real> {
        self.mu@
    }

    /// The covariance, row by row.
    pub closed spec fn covariance_matrix(&self) -> Seq<Seq<Real>> {
        rows(self.sigma@)
    }

    /// The distribution with mean `mu` and covariance `sigma`.
    ///
    /// `sigma` must have as many rows and columns as `mu` has entries and be
    /// symmetric; `positive_definite` is the verdict of the factorisation
    /// that the caller ran on it.
    pub fn new(mu: Vec<Real>, sigma: Vec<Vec<Real>>, positive_definite: bool) -> (r: Result<
        MultivariateNormal,
        Error,
    >)
        ensures
            match covariance_outcome(mu@.len(), rows(sigma@), positive_definite) {
                Ok(_) => r is Ok && r->Ok_0.mean_vector() == mu@ && r->Ok_0.covariance_matrix()
                    == rows(sigma@),
                Err(e) => r is Err && r->Err_0 == e,
            },
    {
        if !has_shape(&sigma, mu.len()) {
            return Err(Error::ParameterDomain { parameter: "sigma", domain: Domain::ShapeMatch });
        }
        let symmetric = mirrors(&sigma);
        match Validator.require_positive_definite("sigma", symmetric && positive_definite) {
            Ok(_) => Ok(MultivariateNormal { mu, sigma }),
            Err(e) => Err(e),
        }
    }

    /// The distribution with mean `mu` and covariance `variance` times the
    /// identity; `variance` must be a finite number above zero.
    pub fn isotropic(mu: Vec<Real>, variance: Real) -> (r: Result<MultivariateNormal, Error>)
        ensures
            variance.positive() ==> r is Ok && r->Ok_0.mean_vector() == mu@
                && r->Ok_0.covariance_matrix() == scaled_identity(mu@.len(), variance),
            !variance.positive() ==> r == Err::<MultivariateNormal, Error>(
                Error::ParameterDomain { parameter: "sigma", domain: Domain::PositiveReal },
            ),
    {
        match Validator.require_positive_real("sigma", variance) {
            Ok(_) => {
                let sigma = diagonal(mu.len(), variance);
                Ok(MultivariateNormal { mu, sigma })
            },
            Err(e) => Err(e),
        }
    }

    /// The distribution of `n` independent entries with the same mean `mu`
    /// and the same `variance`, a finite number above zero.
    pub fn homogeneous(n: usize, mu: Real, variance: Real) -> (r: Result<MultivariateNormal, Error>)
        ensures
            variance.positive() ==> r is Ok && r->Ok_0.mean_vector() == constant_vector(
                n as nat,
                mu,
            ) && r->Ok_0.covariance_matrix() == scaled_identity(n as nat, variance),
            !variance.positive() ==> r == Err::<MultivariateNormal, Error>(
                Error::ParameterDomain { parameter: "sigma", domain: Domain::PositiveReal },
            ),
    {
        MultivariateNormal::isotropic(filled(n, mu), variance)
    }

    /// The standard distribution of dimension `n`: mean zero, covariance the
    /// identity.
    pub fn standard(n: usize) -> (d: MultivariateNormal)
        ensures
            d.mean_vector() == constant_vector(n as nat, Real::with_bits(0)),
            d.covariance_matrix() == scaled_identity(n as nat, Real::with_bits(ONE_BITS)),
    {
        let mu = filled(n, Real::zero());
        let sigma = diagonal(n, Real::one());
        MultivariateNormal { mu, sigma }
    }

    /// The number of entries of an outcome.
    pub fn dim(&self) -> (n: usize)
        ensures
            n == self.mean_vector().len(),
            is_square(self.covariance_matrix(), n as nat),
    {
        proof {
            use_type_invariant(self);
        }
        self.mu.len()
    }

    /// The mean vector.
    pub fn mu(&self) -> (mu: &Vec<Real>)
        ensures
            mu@ == self.mean_vector(),
    {
        &self.mu
    }

    /// The covariance matrix, row by row.
    pub fn sigma(&self) -> (sigma: &Vec<Vec<Real>>)
        ensures
            rows(sigma@) == self.covariance_matrix(),
            is_square(rows(sigma@), self.mean_vector().len()),
    {
        proof {
            use_type_invariant(self);
        }
        &self.sigma
    }

    /// The product of as many real lines as the mean has entries.
    pub fn support(&self) -> (space: ProductSpace<Reals>)
        ensures
            product_factors(space).len() == self.mean_vector().len(),
    {
        real_product(self.mu.len())
    }
}

} // verus!
