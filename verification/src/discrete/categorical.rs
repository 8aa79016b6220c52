//! The categorical distribution over the outcomes `0, 1, ..., k - 1`.

use vstd::prelude::*;
use spaces::discrete::Ordinal;
use crate::error::{Domain, Error, Precondition};
use crate::probability::Probability;
use crate::support::{indices_below, ordinal_members};

verus! {

/// Among the first `n` outcomes, none is more probable than outcome `i`.
pub open spec fn is_mode_among(ps: Seq<Probability>, n: int, i: int) -> bool {
    &&& 0 <= i < n
    &&& forall|j: int| 0 <= j < n ==> (#[trigger] ps[j])@.scaled() <= ps[i]@.scaled()
}

/// No outcome is more probable than outcome `i`.
pub open spec fn is_mode(ps: Seq<Probability>, i: int) -> bool {
    is_mode_among(ps, ps.len() as int, i)
}

/// A distribution over `k >= 1` outcomes, given by the probability of each.
#[derive(Debug)]
pub struct Categorical {
    ps: Vec<Probability>,
}

impl View for Categorical {
    type V = Seq<Probability>;

    closed spec fn view(&self) -> Seq<Probability> {
        self.ps@
    }
}

impl Clone for Categorical {
    fn clone(&self) -> (copy: Self)
        ensures
            copy@ == self@,
    {
        proof {
            use_type_invariant(self);
        }
        let mut ps: Vec<Probability> = Vec::new();
        let mut i: usize = 0;
        while i < self.ps.len()
            invariant
                i <= self.ps@.len(),
                ps@ == self.ps@.take(i as int),
            decreases self.ps@.len() - i,
        {
            ps.push(self.ps[i]);
            assert(self.ps@.take(i + 1) == self.ps@.take(i as int).push(self.ps@[i as int]));
            i += 1;
        }
        assert(self.ps@.take(self.ps@.len() as int) == self.ps@);
        Categorical { ps }
    }
}

impl Categorical {
    #[verifier::type_invariant]
    spec fn has_outcomes(self) -> bool {
        self.ps@.len() >= 1
    }

    /// The distribution with the given probabilities, one for each outcome.
    /// At least one outcome is required.
    pub fn new(ps: Vec<Probability>) -> (r: Result<Categorical, Error>)
        ensures
            ps@.len() >= 1 ==> r is Ok && r->Ok_0@ == ps@,
            ps@.len() == 0 ==> r == Err::<Categorical, Error>(
                Error::ParameterDomain { parameter: "ps", domain: Domain::NonEmpty },
            ),
    {
        if ps.len() == 0 {
            Err(Error::ParameterDomain { parameter: "ps", domain: Domain::NonEmpty })
        } else {
            Ok(Categorical { ps })
        }
    }

    /// The stored probabilities.
    pub fn ps(&self) -> (ps: &Vec<Probability>)
        ensures
            ps@ == self@,
            ps@.len() >= 1,
    {
        proof {
            use_type_invariant(self);
        }
        &self.ps
    }

    /// The number of outcomes.
    pub fn cardinality(&self) -> (k: usize)
        ensures
            k == self@.len(),
            k >= 1,
    {
        proof {
            use_type_invariant(self);
        }
        self.ps.len()
    }

    /// The outcomes: the indices below the number of probabilities.
    pub fn support(&self) -> (space: Ordinal)
        ensures
            ordinal_members(space) == indices_below(self@.len()),
    {
        Ordinal::new(self.ps.len())
    }

    /// Not provided.
    pub fn cdf(&self, i: usize) -> (r: Result<Probability, Error>)
        ensures
            r == Err::<Probability, Error>(Error::Unimplemented),
    {
        Err(Error::Unimplemented)
    }

    /// The probability of outcome `i`, which must be one of the outcomes.
    pub fn pmf(&self, i: usize) -> (r: Result<Probability, Error>)
        ensures
            i < self@.len() ==> r == Ok::<Probability, Error>(self@[i as int])
                && self@[i as int]@.in_unit_interval(),
            i >= self@.len() ==> r == Err::<Probability, Error>(
                Error::Precondition(Precondition::OutsideSupport),
            ),
    {
        if i < self.ps.len() {
            let p: Probability = self.ps[i];
            let x = p.value();
            Ok(p)
        } else {
            Err(Error::Precondition(Precondition::OutsideSupport))
        }
    }

    /// The most probable outcomes, in ascending order: every outcome whose
    /// probability equals the largest one, and no other.
    pub fn modes(&self) -> (modes: Vec<usize>)
        ensures
            modes@.len() >= 1,
            forall|a: int, b: int| 0 <= a < b < modes@.len() ==> modes@[a] < modes@[b],
            forall|a: int| 0 <= a < modes@.len() ==> is_mode(self@, #[trigger] modes@[a] as int),
            forall|i: int| #[trigger] is_mode(self@, i) ==> modes@.contains(i as usize),
    {
        proof {
            use_type_invariant(self);
        }
        let n: usize = self.ps.len();
        let mut modes: Vec<usize> = Vec::new();
        modes.push(0);
        let mut best: Probability = self.ps[0];
        let mut j: usize = 1;
        assert(modes@[0] == 0);
        assert forall|i: int| #[trigger] is_mode_among(self.ps@, 1, i) implies modes@.contains(i as usize) by {
            assert(modes@[0] == i as usize);
        }
        while j < n
            invariant
                1 <= j <= n,
                n == self.ps@.len(),
                modes@.len() >= 1,
                forall|a: int, b: int| 0 <= a < b < modes@.len() ==> modes@[a] < modes@[b],
                forall|a: int|
                    0 <= a < modes@.len() ==> is_mode_among(
                        self.ps@,
                        j as int,
                        #[trigger] modes@[a] as int,
                    ),
                forall|i: int| #[trigger]
                    is_mode_among(self.ps@, j as int, i) ==> modes@.contains(i as usize),
                best@ == self.ps@[modes@[0] as int]@,
            decreases n - j,
        {
            let p: Probability = self.ps[j];
            let ghost before = modes@;
            let ghost next: int = j + 1;
            let x = p.value();
            let top = best.value();
            if top < x {
                modes.clear();
                modes.push(j);
                best = p;
                assert(modes@[0] == j);
                assert forall|i: int| #[trigger] is_mode_among(self.ps@, next, i) implies modes@.contains(
                    i as usize,
                ) by {
                    if i < j {
                        // an earlier outcome is at most `best`, which is below `p`
                        assert(is_mode_among(self.ps@, j as int, before[0] as int));
                        assert(self.ps@[before[0] as int]@.scaled() <= self.ps@[i]@.scaled());
                        assert(self.ps@[j as int]@.scaled() <= self.ps@[i]@.scaled());
                    }
                    assert(modes@[0] == i as usize);
                }
                assert forall|a: int| 0 <= a < modes@.len() implies is_mode_among(
                    self.ps@,
                    next,
                    #[trigger] modes@[a] as int,
                ) by {
                    assert(is_mode_among(self.ps@, j as int, before[0] as int));
                }
            } else if x == top {
                modes.push(j);
                assert forall|a: int, b: int| 0 <= a < b < modes@.len() implies modes@[a]
                    < modes@[b] by {
                    if b == before.len() {
                        assert(is_mode_among(self.ps@, j as int, before[a] as int));
                    }
                }
                assert forall|a: int| 0 <= a < modes@.len() implies is_mode_among(
                    self.ps@,
                    next,
                    #[trigger] modes@[a] as int,
                ) by {
                    assert(is_mode_among(self.ps@, j as int, before[0] as int));
                    if a < before.len() {
                        assert(is_mode_among(self.ps@, j as int, before[a] as int));
                        assert(self.ps@[before[0] as int]@.scaled() <= self.ps@[before[a] as int]@.scaled());
                    }
                }
                assert forall|i: int| #[trigger] is_mode_among(self.ps@, next, i) implies modes@.contains(
                    i as usize,
                ) by {
                    if i < j {
                        assert(is_mode_among(self.ps@, j as int, i));
                        let a = choose|a: int| 0 <= a < before.len() && before[a] == i as usize;
                        assert(modes@[a] == i as usize);
                    } else {
                        assert(modes@[before.len() as int] == i as usize);
                    }
                }
            } else {
                assert forall|a: int| 0 <= a < modes@.len() implies is_mode_among(
                    self.ps@,
                    next,
                    #[trigger] modes@[a] as int,
                ) by {
                    assert(is_mode_among(self.ps@, j as int, before[0] as int));
                    assert(is_mode_among(self.ps@, j as int, before[a] as int));
                    assert(self.ps@[before[0] as int]@.scaled() <= self.ps@[before[a] as int]@.scaled());
                }
                assert forall|i: int| #[trigger] is_mode_among(self.ps@, next, i) implies modes@.contains(
                    i as usize,
                ) by {
                    assert(is_mode_among(self.ps@, j as int, before[0] as int));
                    if i == j {
                        assert(self.ps@[before[0] as int]@.scaled() <= self.ps@[i]@.scaled());
                    }
                    assert(is_mode_among(self.ps@, j as int, i));
                }
            }
            j += 1;
        }
        modes
    }
}

} // verus!
