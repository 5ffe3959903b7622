//! Sets given by a rule rather than by their elements.

use vstd::prelude::*;

verus! {

/// A set whose elements are those that satisfy its membership rule.
pub trait NonDeterminantSet: Sized {
    /// The type of the membership rule.
    type Rule: Fn(&Self) -> bool;

    /// The rule that decides whether a value is an element.
    fn membership_rule(&self) -> Self::Rule;
}

} // verus!
