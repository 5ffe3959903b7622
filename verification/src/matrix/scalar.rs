//! The element type of a matrix: a floating-point-like number.

use vstd::prelude::*;

verus! {

/// A floating-point-like matrix element.
///
/// Such a type has a zero and a one, the four arithmetic operations and
/// negation, a test for its not-a-number value, a sign, and a decimal
/// rendering. The trait asks nothing of the operations: rounding arithmetic
/// obeys no algebraic law, and an implementation need not be verified. What
/// the library proves of its results it proves over the values that the
/// operations return, named by the specification functions of this module,
/// for every element type whose operations are [`functional`].
pub trait Scalar: Copy {
    /// The additive identity.
    fn zero() -> Self;

    /// The multiplicative identity.
    fn one() -> Self;

    /// `self + rhs`.
    fn add(self, rhs: Self) -> Self;

    /// `self - rhs`.
    fn sub(self, rhs: Self) -> Self;

    /// `self * rhs`.
    fn mul(self, rhs: Self) -> Self;

    /// `self / rhs`. Division by zero is no error: it gives an infinity, or
    /// the not-a-number value for zero over zero.
    fn div(self, rhs: Self) -> Self;

    /// `-self`.
    fn neg(self) -> Self;

    /// Whether `self` is the not-a-number value.
    fn is_nan(self) -> bool;

    /// The sign of `self` as an element: one, minus one, or not-a-number.
    fn signum(self) -> Self;

    /// `self` in decimal notation with two digits after the point.
    fn to_text(self) -> String;
}

/// The value that [`Scalar::zero`] returns.
pub open spec fn zero<E: Scalar>() -> E {
    choose|z: E| call_ensures(E::zero, (), z)
}

/// The value that [`Scalar::one`] returns.
pub open spec fn one<E: Scalar>() -> E {
    choose|o: E| call_ensures(E::one, (), o)
}

/// The value that [`Scalar::add`] returns for `a` and `b`.
pub open spec fn sum<E: Scalar>(a: E, b: E) -> E {
    choose|s: E| call_ensures(E::add, (a, b), s)
}

/// The value that [`Scalar::sub`] returns for `a` and `b`.
pub open spec fn difference<E: Scalar>(a: E, b: E) -> E {
    choose|d: E| call_ensures(E::sub, (a, b), d)
}

/// The value that [`Scalar::mul`] returns for `a` and `b`.
pub open spec fn product<E: Scalar>(a: E, b: E) -> E {
    choose|p: E| call_ensures(E::mul, (a, b), p)
}

/// The value that [`Scalar::div`] returns for `a` and `b`.
pub open spec fn quotient<E: Scalar>(a: E, b: E) -> E {
    choose|q: E| call_ensures(E::div, (a, b), q)
}

/// The value that [`Scalar::neg`] returns for `a`.
pub open spec fn negation<E: Scalar>(a: E) -> E {
    choose|n: E| call_ensures(E::neg, (a,), n)
}

/// What [`Scalar::is_nan`] returns for `a`.
pub open spec fn is_nan<E: Scalar>(a: E) -> bool {
    choose|b: bool| call_ensures(E::is_nan, (a,), b)
}

/// The value that [`Scalar::signum`] returns for `a`.
pub open spec fn sign<E: Scalar>(a: E) -> E {
    choose|s: E| call_ensures(E::signum, (a,), s)
}

/// The text that [`Scalar::to_text`] returns for `a`.
pub open spec fn text<E: Scalar>(a: E) -> Seq<char> {
    (choose|t: String| call_ensures(E::to_text, (a,), t))@
}

/// The operations of `E` are functions: each returns one result for given
/// arguments, whenever it is called. Then the specification functions above
/// name the results exactly.
pub open spec fn functional<E: Scalar>() -> bool {
    &&& forall|z: E| call_ensures(E::zero, (), z) ==> z == zero::<E>()
    &&& forall|o: E| call_ensures(E::one, (), o) ==> o == one::<E>()
    &&& forall|a: E, b: E, s: E| call_ensures(E::add, (a, b), s) ==> s == sum(a, b)
    &&& forall|a: E, b: E, d: E| call_ensures(E::sub, (a, b), d) ==> d == difference(a, b)
    &&& forall|a: E, b: E, p: E| call_ensures(E::mul, (a, b), p) ==> p == product(a, b)
    &&& forall|a: E, b: E, q: E| call_ensures(E::div, (a, b), q) ==> q == quotient(a, b)
    &&& forall|a: E, n: E| call_ensures(E::neg, (a,), n) ==> n == negation(a)
    &&& forall|a: E, b: bool| call_ensures(E::is_nan, (a,), b) ==> b == is_nan(a)
    &&& forall|a: E, s: E| call_ensures(E::signum, (a,), s) ==> s == sign(a)
    &&& forall|a: E, t: String| call_ensures(E::to_text, (a,), t) ==> t@ == text(a)
}

/// Where no operation of `E` has two results for the same arguments, the
/// operations of `E` are functional. An implementation meets this whenever
/// each of its operations ensures a result that is given by its arguments.
pub proof fn lemma_single_valued_is_functional<E: Scalar>()
    requires
        forall|z1: E, z2: E|
            call_ensures(E::zero, (), z1) && call_ensures(E::zero, (), z2) ==> z1 == z2,
        forall|o1: E, o2: E|
            call_ensures(E::one, (), o1) && call_ensures(E::one, (), o2) ==> o1 == o2,
        forall|a: E, b: E, s1: E, s2: E|
            call_ensures(E::add, (a, b), s1) && call_ensures(E::add, (a, b), s2) ==> s1 == s2,
        forall|a: E, b: E, d1: E, d2: E|
            call_ensures(E::sub, (a, b), d1) && call_ensures(E::sub, (a, b), d2) ==> d1 == d2,
        forall|a: E, b: E, p1: E, p2: E|
            call_ensures(E::mul, (a, b), p1) && call_ensures(E::mul, (a, b), p2) ==> p1 == p2,
        forall|a: E, b: E, q1: E, q2: E|
            call_ensures(E::div, (a, b), q1) && call_ensures(E::div, (a, b), q2) ==> q1 == q2,
        forall|a: E, n1: E, n2: E|
            call_ensures(E::neg, (a,), n1) && call_ensures(E::neg, (a,), n2) ==> n1 == n2,
        forall|a: E, b1: bool, b2: bool|
            call_ensures(E::is_nan, (a,), b1) && call_ensures(E::is_nan, (a,), b2) ==> b1 == b2,
        forall|a: E, s1: E, s2: E|
            call_ensures(E::signum, (a,), s1) && call_ensures(E::signum, (a,), s2) ==> s1 == s2,
        forall|a: E, t1: String, t2: String|
            call_ensures(E::to_text, (a,), t1) && call_ensures(E::to_text, (a,), t2) ==> t1@
                == t2@,
    ensures
        functional::<E>(),
{
}

} // verus!
