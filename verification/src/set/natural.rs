//! The natural numbers, built from zero by taking successors.

use vstd::prelude::*;

verus! {

/// The axioms of Peano, as operations on a type whose values stand for
/// natural numbers.
pub trait PeanoAxioms: Sized {
    /// The natural number that the value stands for.
    spec fn rank(&self) -> nat;

    /// Zero is a natural number.
    fn zero() -> (z: Self)
        ensures
            z.rank() == 0,
    ;

    /// The successor of a natural number is a natural number, and it is
    /// never zero.
    fn successor(&self) -> (s: Self)
        ensures
            s.rank() == self.rank() + 1,
    ;

    /// Two natural numbers are equal if their successors are equal.
    fn eq(&self, other: &Self) -> (same: bool)
        ensures
            same == (self.rank() == other.rank()),
    ;
}

/// A natural number: zero, or the successor of a natural number.
#[derive(Debug, PartialEq, Eq)]
pub enum NaturalNumber {
    Zero,
    Successor(Box<NaturalNumber>),
}

impl Clone for NaturalNumber {
    fn clone(&self) -> (copy: Self)
        ensures
            copy == *self,
        decreases *self,
    {
        match self {
            NaturalNumber::Zero => NaturalNumber::Zero,
            NaturalNumber::Successor(n) => NaturalNumber::Successor(Box::new((&**n).clone())),
        }
    }
}

impl PeanoAxioms for NaturalNumber {
    open spec fn rank(&self) -> nat
        decreases *self,
    {
        match self {
            NaturalNumber::Zero => 0,
            NaturalNumber::Successor(n) => n.rank() + 1,
        }
    }

    fn zero() -> (z: Self)
        ensures
            z == NaturalNumber::Zero,
    {
        NaturalNumber::Zero
    }

    fn successor(&self) -> (s: Self)
        ensures
            s == NaturalNumber::Successor(Box::new(*self)),
    {
        NaturalNumber::Successor(Box::new(self.clone()))
    }

    fn eq(&self, other: &Self) -> (same: bool)
        decreases *self,
    {
        proof {
            lemma_rank_injective(*self, *other);
        }
        match (self, other) {
            (NaturalNumber::Zero, NaturalNumber::Zero) => true,
            (NaturalNumber::Successor(n), NaturalNumber::Successor(m)) => {
                proof {
                    lemma_rank_injective(**n, **m);
                }
                PeanoAxioms::eq(&**n, &**m)
            },
            _ => false,
        }
    }
}

impl NaturalNumber {
    /// The number as a machine integer.
    pub fn to_usize(&self) -> (n: usize)
        requires
            self.rank() <= usize::MAX,
        ensures
            n == self.rank(),
        decreases *self,
    {
        match self {
            NaturalNumber::Zero => 0,
            NaturalNumber::Successor(n) => n.to_usize() + 1,
        }
    }

    /// The natural number that is `n` successors after zero.
    pub fn from_usize(n: usize) -> (number: Self)
        ensures
            number.rank() == n,
        decreases n,
    {
        match n {
            0 => NaturalNumber::Zero,
            _ => NaturalNumber::Successor(Box::new(NaturalNumber::from_usize(n - 1))),
        }
    }
}

/// Zero is the successor of no natural number.
pub proof fn lemma_zero_is_no_successor(n: NaturalNumber)
    ensures
        NaturalNumber::Successor(Box::new(n)) != NaturalNumber::Zero,
        NaturalNumber::Successor(Box::new(n)).rank() == n.rank() + 1,
{
    assert(NaturalNumber::Successor(Box::new(n)).rank() == n.rank() + 1);
}

/// Natural numbers with the same successor are the same.
pub proof fn lemma_successor_is_injective(a: NaturalNumber, b: NaturalNumber)
    requires
        NaturalNumber::Successor(Box::new(a)) == NaturalNumber::Successor(Box::new(b)),
    ensures
        a == b,
{
}

/// Natural numbers of the same rank are the same value: the rank counts the
/// successors, and there is nothing else to a natural number.
pub proof fn lemma_rank_injective(a: NaturalNumber, b: NaturalNumber)
    ensures
        a.rank() == b.rank() <==> a == b,
    decreases a,
{
    match a {
        NaturalNumber::Zero => {
            match b {
                NaturalNumber::Zero => {},
                NaturalNumber::Successor(m) => {
                    assert(b.rank() == m.rank() + 1);
                },
            }
        },
        NaturalNumber::Successor(n) => {
            assert(a.rank() == n.rank() + 1);
            match b {
                NaturalNumber::Zero => {},
                NaturalNumber::Successor(m) => {
                    assert(b.rank() == m.rank() + 1);
                    lemma_rank_injective(*n, *m);
                },
            }
        },
    }
}

} // verus!
