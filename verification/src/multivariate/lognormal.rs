//! The multivariate log-normal distribution: the distribution of the
//! entry-wise exponential of a multivariate normal vector.

use vstd::prelude::*;
use spaces::real::Reals;
use spaces::ProductSpace;
use crate::error::{Domain, Error};
use crate::multivariate::normal::{
    constant_vector, covariance_outcome, rows, scaled_identity, MultivariateNormal,
};
use crate::scalar::{Real, ONE_BITS};
use crate::support::product_factors;

verus! {

/// A multivariate log-normal distribution, held as the normal distribution
/// of the logarithms.
#[derive(Debug)]
pub struct MultivariateLogNormal(pub MultivariateNormal);

impl Clone for MultivariateLogNormal {
    fn clone(&self) -> (copy: Self)
        ensures
            copy.0.mean_vector() == self.0.mean_vector(),
            copy.0.covariance_matrix() == self.0.covariance_matrix(),
    {
        MultivariateLogNormal(self.0.clone())
    }
}

impl MultivariateLogNormal {
    /// The distribution whose logarithm has mean `mu` and covariance
    /// `sigma`; see [`MultivariateNormal::new`].
    pub fn new(mu: Vec<Real>, sigma: Vec<Vec<Real>>, positive_definite: bool) -> (r: Result<
        MultivariateLogNormal,
        Error,
    >)
        ensures
            match covariance_outcome(mu@.len(), rows(sigma@), positive_definite) {
                Ok(_) => r is Ok && r->Ok_0.0.mean_vector() == mu@
                    && r->Ok_0.0.covariance_matrix() == rows(sigma@),
                Err(e) => r is Err && r->Err_0 == e,
            },
    {
        match MultivariateNormal::new(mu, sigma, positive_definite) {
            Ok(normal) => Ok(MultivariateLogNormal(normal)),
            Err(e) => Err(e),
        }
    }

    /// The distribution whose logarithm has mean `mu` and covariance
    /// `variance` times the identity.
    pub fn isotropic(mu: Vec<Real>, variance: Real) -> (r: Result<MultivariateLogNormal, Error>)
        ensures
            variance.positive() ==> r is Ok && r->Ok_0.0.mean_vector() == mu@
                && r->Ok_0.0.covariance_matrix() == scaled_identity(mu@.len(), variance),
            !variance.positive() ==> r == Err::<MultivariateLogNormal, Error>(
                Error::ParameterDomain { parameter: "sigma", domain: Domain::PositiveReal },
            ),
    {
        match MultivariateNormal::isotropic(mu, variance) {
            Ok(normal) => Ok(MultivariateLogNormal(normal)),
            Err(e) => Err(e),
        }
    }

    /// The distribution whose logarithm has `n` independent entries with
    /// the same mean `mu` and the same `variance`.
    pub fn homogeneous(n: usize, mu: Real, variance: Real) -> (r: Result<
        MultivariateLogNormal,
        Error,
    >)
        ensures
            variance.positive() ==> r is Ok && r->Ok_0.0.mean_vector() == constant_vector(
                n as nat,
                mu,
            ) && r->Ok_0.0.covariance_matrix() == scaled_identity(n as nat, variance),
            !variance.positive() ==> r == Err::<MultivariateLogNormal, Error>(
                Error::ParameterDomain { parameter: "sigma", domain: Domain::PositiveReal },
            ),
    {
        match MultivariateNormal::homogeneous(n, mu, variance) {
            Ok(normal) => Ok(MultivariateLogNormal(normal)),
            Err(e) => Err(e),
        }
    }

    /// The distribution whose logarithm is standard normal in `n`
    /// dimensions.
    pub fn standard(n: usize) -> (d: MultivariateLogNormal)
        ensures
            d.0.mean_vector() == constant_vector(n as nat, Real::with_bits(0)),
            d.0.covariance_matrix() == scaled_identity(n as nat, Real::with_bits(ONE_BITS)),
    {
        MultivariateLogNormal(MultivariateNormal::standard(n))
    }

    /// The product of as many real lines as an outcome has entries.
    pub fn support(&self) -> (space: ProductSpace<Reals>)
        ensures
            product_factors(space).len() == self.0.mean_vector().len(),
    {
        self.0.support()
    }
}

} // verus!
