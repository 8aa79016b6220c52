//! The sample spaces that distributions live on, as described by the
//! `spaces` crate.
//!
//! The space types are opaque here.  What the library relies on is stated
//! below and taken on trust from the crate's source: which indices an
//! [`Ordinal`] holds and how many factors a [`ProductSpace`] has.

use vstd::prelude::*;
use spaces::discrete::Ordinal;
use spaces::real::Reals;
use spaces::ProductSpace;

verus! {

#[verifier::external_type_specification]
#[verifier::external_body]
pub struct ExOrdinal(Ordinal);

#[verifier::external_type_specification]
#[verifier::external_body]
pub struct ExReals(Reals);

#[verifier::external_type_specification]
#[verifier::external_body]
#[verifier::reject_recursive_types(D)]
pub struct ExProductSpace<D>(ProductSpace<D>);

/// The indices that a finite ordinal space contains.
pub uninterp spec fn ordinal_members(space: Ordinal) -> Set<int>;

/// The factors of a product of real lines, one entry for each.
pub uninterp spec fn product_factors(space: ProductSpace<Reals>) -> Seq<()>;

/// The first `size` indices: `0, 1, ..., size - 1`.
pub open spec fn indices_below(size: nat) -> Set<int> {
    Set::new(|i: int| 0 <= i < size)
}

/// Taken on trust of `spaces::discrete::Ordinal::new`: the space it returns
/// holds the indices below `size`.  The crate stores `size`, reports it as the
/// cardinality and answers `contains(i)` with `i < size`.
pub assume_specification[ Ordinal::new ](size: usize) -> (space: Ordinal)
    ensures
        ordinal_members(space) == indices_below(size as nat),
;

/// The unit value `spaces::real::Reals`, the set of all real numbers.
/// Nothing is claimed of it.
#[verifier::external_body]
pub(crate) fn real_line() -> Reals {
    Reals
}

/// Taken on trust of `spaces::ProductSpace::new`, called on `n` copies of
/// `Reals`: the crate keeps the vector it is given, so the product has `n`
/// factors.
#[verifier::external_body]
pub(crate) fn real_product(n: usize) -> (space: ProductSpace<Reals>)
    ensures
        product_factors(space).len() == n,
{
    ProductSpace::new(vec![Reals; n])
}

} // verus!
