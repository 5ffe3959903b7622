//! Arithmetic on the natural numbers.

use crate::set::natural::{lemma_rank_injective, NaturalNumber, PeanoAxioms};
use vstd::prelude::*;

verus! {

/// Addition of a right-hand side to a value.
pub trait Add<RHS = Self> {
    /// The type of the sum.
    type Output;

    /// The sum that [`add`](Add::add) computes.
    spec fn spec_sum(&self, rhs: &RHS) -> Self::Output;

    /// The sum of `self` and `rhs`.
    fn add(&self, rhs: &RHS) -> (sum: Self::Output)
        ensures
            sum == self.spec_sum(rhs),
    ;
}

/// The natural number of the given rank.
pub open spec fn natural(n: nat) -> NaturalNumber
    decreases n,
{
    if n == 0 {
        NaturalNumber::Zero
    } else {
        NaturalNumber::Successor(Box::new(natural((n - 1) as nat)))
    }
}

/// `natural(n)` has rank `n`.
pub proof fn lemma_natural_rank(n: nat)
    ensures
        natural(n).rank() == n,
    decreases n,
{
    if n > 0 {
        lemma_natural_rank((n - 1) as nat);
    }
}

impl Add for NaturalNumber {
    type Output = NaturalNumber;

    open spec fn spec_sum(&self, rhs: &NaturalNumber) -> NaturalNumber {
        natural(self.rank() + rhs.rank())
    }

    fn add(&self, rhs: &NaturalNumber) -> (sum: NaturalNumber)
        ensures
            sum.rank() == self.rank() + rhs.rank(),
        decreases *self,
    {
        proof {
            lemma_natural_rank(self.rank() + rhs.rank());
        }
        let sum = match self {
            NaturalNumber::Zero => rhs.clone(),
            NaturalNumber::Successor(n) => NaturalNumber::Successor(Box::new(n.add(rhs))),
        };
        proof {
            lemma_rank_injective(sum, natural(self.rank() + rhs.rank()));
        }
        sum
    }
}

} // verus!
