//! The axioms of set theory, each as a trait.

use vstd::prelude::*;

verus! {

/// Extensionality Axiom
///
/// For all sets `A` and `B`, if `A` and `B` have the same elements, then `A = B`.
pub trait Extensionality<T> {
    /// Both values denote sets, so that their elements can be compared.
    spec fn comparable(&self, other: &T) -> bool;

    /// `self` and `other` have the same elements.
    spec fn same_elements(&self, other: &T) -> bool;

    /// Whether `self` and `other` are equal: whether they have the same
    /// elements.
    fn is_equal(&self, other: &T) -> (equal: bool)
        ensures
            self.comparable(other) ==> equal == self.same_elements(other),
    ;
}

/// Cardinality Axiom
///
/// For every set `A`, there exists a natural number `|A|`, called the cardinality of `A`.
pub trait Cardinality {
    fn cardinality(&self) -> usize;
}

/// Empty Set Axiom
///
/// There exists a set, called the empty set, that has no element.
pub trait EmptySet {
    fn is_empty(&self) -> bool;
}

/// Pair Set Axiom
///
/// For every two sets `A` and `B`, there exists a set `{A, B}`.
pub trait PairSet<T, U>: Sized {
    fn new(a: T, b: U) -> Self;
}

/// Union Axiom
///
/// For every set `A` and every set `B`, there exists a set, called the union of `A` and `B`,
/// such that `x` is in it if and only if `x` is in `A` or `x` is in `B`.
pub trait Union<T>: Sized {
    fn union(&self, other: &T) -> Self;
}

/// Intersection Axiom
///
/// For every set `A` and every set `B`, there exists a set, called the intersection of `A` and
/// `B`, such that `x` is in it if and only if `x` is in `A` and `x` is in `B`.
pub trait Intersection<T>: Sized {
    fn intersection(&self, other: &T) -> Self;
}

/// Difference Axiom
///
/// For every set `A` and every set `B`, there exists a set `A - B`, called the difference of `A`
/// and `B`, such that `x` is in it if and only if `x` is in `A` and `x` is not in `B`.
pub trait Difference<T>: Sized {
    fn difference(&self, other: &T) -> Self;
}

/// Complement Axiom
///
/// For every set `A`, there exists a set `A'`, called the complement of `A`,
/// such that `x` is in `A'` if and only if `x` is not in `A`.
pub trait Complement: Sized {
    fn complement(&self) -> Self;
}

/// Regularity Axiom
///
/// For every set `A`, there exists a set `B` that has no element in common with `A`.
pub trait Regularity {
    fn is_disjoint(&self, other: &Self) -> bool;
}

/// Power Set Axiom
///
/// For every set `A`, there exists a set `P(A)`, called the power set of `A`,
/// such that `B` is in `P(A)` if and only if `B` is a subset of `A`.
pub trait PowerSet: Sized {
    fn power_set(&self) -> Self;
}

/// Replacement Axiom
///
/// If `f` is a function from a set `A` to a set `B`, and if `C` is the image of `A` under `f`,
/// then `C` is a set.
pub trait Replacement<A, B>: Sized {
    fn replace<F: Fn(A) -> B>(&self, f: &F) -> Self;
}

/// Axiom of Choice
///
/// Given any collection of non-empty sets, it is possible to choose one element from each set.
pub trait Choice<T> {
    fn pick(&self) -> T;
}

/// Axiom of Specification
///
/// If a set `X` and a property `P` are given, then there exists a set `Y` consisting of exactly
/// those elements of `X` that have property `P`.
pub trait Specification<T> {
    /// The property can be asked of `elem`.
    spec fn decides(&self, elem: &T) -> bool;

    /// `verdict` is an answer that the property gives for `elem`.
    spec fn answers(&self, elem: &T, verdict: bool) -> bool;

    /// Whether `elem` has the property.
    fn is_in_set(&self, elem: &T) -> (verdict: bool)
        requires
            self.decides(elem),
        ensures
            self.answers(elem, verdict),
    ;
}

/// A function from elements to truth values is a property: an element has it
/// where the function returns `true`.
impl<T, F> Specification<T> for F where F: Fn(&T) -> bool {
    open spec fn decides(&self, elem: &T) -> bool {
        call_requires(*self, (elem,))
    }

    open spec fn answers(&self, elem: &T, verdict: bool) -> bool {
        call_ensures(*self, (elem,), verdict)
    }

    fn is_in_set(&self, elem: &T) -> (verdict: bool) {
        (self)(elem)
    }
}

/// Axiom of Induction
///
/// If a property holds of zero, and holds of the successor of every natural number of which it
/// holds, then it holds of every natural number.
pub trait Induction<T> {
    fn base_case(&self) -> bool;

    fn inductive_step(&self, elem: &T) -> bool;
}

} // verus!
