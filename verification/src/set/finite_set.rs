//! A finite set, kept as a list of its elements without repetition.

use crate::set::axioms::Extensionality;
use crate::set::SetLike;
use vstd::laws_eq::obeys_concrete_eq;
use vstd::prelude::*;
use vstd::set_lib::lemma_subset_equality;

verus! {

/// A finite set of values of `T`.
///
/// Elements are told apart by `==`. Where that is equality (see
/// [`obeys_concrete_eq`]), the value denotes a set and the operations are
/// those of sets; otherwise nothing is promised of them.
#[derive(Debug, Clone)]
pub struct FiniteSet<T> {
    elements: Vec<T>,
}

impl<T> FiniteSet<T> {
    /// The elements in the order in which they were inserted.
    pub closed spec fn listing(&self) -> Seq<T> {
        self.elements@
    }

    /// The empty set.
    pub fn new() -> (s: Self)
        ensures
            s.listing() == Seq::<T>::empty(),
    {
        FiniteSet { elements: Vec::new() }
    }
}

impl<T: PartialEq> SetLike for FiniteSet<T> {
    type Element = T;

    open spec fn valid(&self) -> bool {
        &&& obeys_concrete_eq::<T>()
        &&& self.listing().no_duplicates()
    }

    open spec fn members(&self) -> Set<T> {
        self.listing().to_set()
    }

    proof fn members_finite(&self) {
    }

    fn contains(&self, e: &T) -> (found: bool) {
        let mut i: usize = 0;
        while i < self.elements.len()
            invariant
                i <= self.elements@.len(),
                obeys_concrete_eq::<T>() ==> forall|k: int| 0 <= k < i ==> self.elements@[k] != *e,
            decreases self.elements@.len() - i,
        {
            if self.elements[i] == *e {
                proof {
                    reveal(obeys_concrete_eq);
                }
                return true;
            }
            proof {
                reveal(obeys_concrete_eq);
            }
            i += 1;
        }
        false
    }

    fn insert(&mut self, e: T) {
        if !self.contains(&e) {
            self.elements.push(e);
            proof {
                lemma_push_adds_one(old(self).listing(), e);
            }
        } else {
            proof {
                if old(self).valid() {
                    assert(self.members() =~= old(self).members().insert(e));
                }
            }
        }
    }

    fn remove(&mut self, e: &T) {
        let mut i: usize = 0;
        while i < self.elements.len()
            invariant
                i <= self.elements@.len(),
                old(self).valid() ==> self.valid(),
                old(self).valid() ==> forall|k: int| 0 <= k < i ==> self.elements@[k] != *e,
                old(self).valid() ==> forall|x: T|
                    x != *e ==> (self.elements@.contains(x) <==> old(self).elements@.contains(x)),
                old(self).valid() ==> forall|x: T|
                    self.elements@.contains(x) ==> old(self).elements@.contains(x),
            decreases self.elements@.len() - i,
        {
            if self.elements[i] == *e {
                let ghost before = self.elements@;
                self.elements.remove(i);
                proof {
                    reveal(obeys_concrete_eq);
                    if old(self).valid() {
                        lemma_remove_keeps_rest(before, i as int);
                    }
                }
            } else {
                proof {
                    reveal(obeys_concrete_eq);
                }
                i += 1;
            }
        }
        proof {
            if old(self).valid() {
                assert(self.listing().to_set() =~= old(self).listing().to_set().remove(*e));
            }
        }
    }

    fn is_empty(&self) -> (empty: bool) {
        proof {
            if self.elements@.len() > 0 {
                assert(self.listing().contains(self.listing()[0]));
                assert(self.members().contains(self.listing()[0]));
            } else {
                assert(self.members() =~= Set::<T>::empty());
            }
        }
        self.elements.is_empty()
    }

    fn size(&self) -> (n: usize) {
        proof {
            if self.valid() {
                self.listing().unique_seq_to_set();
            }
        }
        self.elements.len()
    }

    fn clear(&mut self) {
        self.elements.clear();
        proof {
            assert(self.listing().to_set() =~= Set::<T>::empty());
        }
    }
}

/// Appending an item to a list adds it to the items that the list holds, and
/// repeats nothing if the list did not hold it.
proof fn lemma_push_adds_one<T>(s: Seq<T>, e: T)
    ensures
        s.push(e).to_set() == s.to_set().insert(e),
        s.no_duplicates() && !s.contains(e) ==> s.push(e).no_duplicates(),
{
    let t = s.push(e);
    assert forall|x: T| t.contains(x) <==> (s.contains(x) || x == e) by {
        if t.contains(x) {
            let k = choose|k: int| 0 <= k < t.len() && t[k] == x;
            if k < s.len() {
                assert(s[k] == x);
            }
        }
        if s.contains(x) {
            let k = choose|k: int| 0 <= k < s.len() && s[k] == x;
            assert(t[k] == x);
        }
        if x == e {
            assert(t[s.len() as int] == x);
        }
    }
    assert(t.to_set() =~= s.to_set().insert(e));
}

/// Taking one item out of a list without repetition leaves a list without
/// repetition that holds exactly the other items.
proof fn lemma_remove_keeps_rest<T>(s: Seq<T>, i: int)
    requires
        s.no_duplicates(),
        0 <= i < s.len(),
    ensures
        s.remove(i).no_duplicates(),
        forall|x: T| s.remove(i).contains(x) <==> (s.contains(x) && x != s[i]),
{
    let t = s.remove(i);
    assert forall|x: T| t.contains(x) <==> (s.contains(x) && x != s[i]) by {
        if t.contains(x) {
            let k = choose|k: int| 0 <= k < t.len() && t[k] == x;
            if k < i {
                assert(s[k] == x);
            } else {
                assert(s[k + 1] == x);
            }
        }
        if s.contains(x) && x != s[i] {
            let k = choose|k: int| 0 <= k < s.len() && s[k] == x;
            if k < i {
                assert(t[k] == x);
            } else {
                assert(t[k - 1] == x);
            }
        }
    }
}

impl<T: PartialEq> Extensionality<FiniteSet<T>> for FiniteSet<T> {
    open spec fn comparable(&self, other: &FiniteSet<T>) -> bool {
        self.valid() && other.valid()
    }

    open spec fn same_elements(&self, other: &FiniteSet<T>) -> bool {
        self.members() == other.members()
    }

    fn is_equal(&self, other: &FiniteSet<T>) -> (equal: bool) {
        proof {
            if self.valid() && other.valid() {
                self.listing().unique_seq_to_set();
                other.listing().unique_seq_to_set();
            }
        }
        if self.size() != other.size() {
            return false;
        }
        let mut i: usize = 0;
        while i < self.elements.len()
            invariant
                i <= self.elements@.len(),
                self.comparable(other) ==> forall|k: int|
                    0 <= k < i ==> other.members().contains(#[trigger] self.elements@[k]),
            decreases self.elements@.len() - i,
        {
            if !other.contains(&self.elements[i]) {
                proof {
                    if self.comparable(other) {
                        assert(self.listing().contains(self.elements@[i as int]));
                    }
                }
                return false;
            }
            i += 1;
        }
        proof {
            if self.comparable(other) {
                assert(self.members().subset_of(other.members())) by {
                    assert forall|x: T| self.members().contains(x) implies other.members().contains(
                        x,
                    ) by {
                        let k = choose|k: int|
                            0 <= k < self.listing().len() && self.listing()[k] == x;
                        assert(other.members().contains(self.elements@[k]));
                    }
                }
                lemma_subset_equality(self.members(), other.members());
            }
        }
        true
    }
}

} // verus!
