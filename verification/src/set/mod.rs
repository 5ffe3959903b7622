//! Sets: the axioms of set theory as traits, a finite set, and the natural
//! numbers after Peano.

pub mod axioms;
pub mod finite_set;
pub mod natural;
pub mod non_determinate_set;
pub mod operations;

use vstd::prelude::*;

verus! {

/// A set is a collection of elements.
///
/// A value of an implementing type denotes the mathematical set
/// [`members`](SetLike::members) whenever it is [`valid`](SetLike::valid);
/// every operation keeps a valid value valid.
pub trait SetLike {
    /// The type of the elements.
    type Element;

    /// The representation is sound, so that the value denotes a set.
    spec fn valid(&self) -> bool;

    /// The set that the value denotes.
    spec fn members(&self) -> Set<Self::Element>;

    /// A valid value denotes a finite set.
    proof fn members_finite(&self)
        requires
            self.valid(),
        ensures
            self.members().finite(),
    ;

    /// Whether `e` is an element.
    fn contains(&self, e: &Self::Element) -> (found: bool)
        ensures
            self.valid() ==> found == self.members().contains(*e),
    ;

    /// Makes `e` an element.
    fn insert(&mut self, e: Self::Element)
        ensures
            old(self).valid() ==> final(self).valid() && final(self).members() == old(
                self,
            ).members().insert(e),
    ;

    /// Makes `e` no element.
    fn remove(&mut self, e: &Self::Element)
        ensures
            old(self).valid() ==> final(self).valid() && final(self).members() == old(
                self,
            ).members().remove(*e),
    ;

    /// Whether there is no element.
    fn is_empty(&self) -> (empty: bool)
        ensures
            self.valid() ==> empty == (self.members() == Set::<Self::Element>::empty()),
    ;

    /// The number of elements.
    fn size(&self) -> (n: usize)
        ensures
            self.valid() ==> n == self.members().len(),
    ;

    /// Removes every element.
    fn clear(&mut self)
        ensures
            old(self).valid() ==> final(self).valid(),
            final(self).members() == Set::<Self::Element>::empty(),
    ;
}

} // verus!
