//! Gaussian elimination without pivoting on the leading block of a square
//! matrix.
//!
//! The derivations of a whole matrix are the case where the block is the
//! whole matrix; the cofactor needs the determinant of a block one smaller.

use super::access::{duplicate, entry, store};
use super::grid::{
    determinant_of, diagonal_product, diagonal_sum, eliminate, eliminated, has_shape, leading,
    lower_factor, multiplier, reduce_row, upper_factor,
};
use super::laws::lemma_eliminated_shape;
use super::scalar::{functional, one, zero, Scalar};
use super::traits::{Identity, Matrix};
use vstd::prelude::*;

verus! {

/// What the upper factor holds at row `r`, column `c` while step `j` is
/// reducing row `i` and has reached column `k`: the rows between `j` and `i`
/// are reduced, and so are the columns of row `i` from `j` up to `k`.
spec fn upper_during<E: Scalar>(
    s: Seq<Seq<E>>,
    j: int,
    i: int,
    k: int,
    r: int,
    c: int,
) -> E {
    if j < r < i || (r == i && j <= c < k) {
        reduce_row(s[r], s[j], j)[c]
    } else {
        s[r][c]
    }
}

/// What the lower factor holds at row `r`, column `c` once the multipliers
/// of the columns before `j`, and those of column `j` for the rows before
/// `i`, are stored.
spec fn lower_during<E: Scalar>(g: Seq<Seq<E>>, j: int, i: int, r: int, c: int) -> E {
    if r == c {
        one::<E>()
    } else if c < r && (c < j || (c == j && r < i)) {
        lower_factor(g)[r][c]
    } else {
        zero::<E>()
    }
}

/// The two factors of the leading `n` by `n` block of `m`: in the leading
/// block of the first matrix the lower factor, in that of the second the
/// upper factor.
pub(crate) fn decompose_leading<const N: usize, M: Matrix<N, N>>(
    m: &M,
    n: usize,
) -> (factors: (M, M))
    requires
        n <= N,
    ensures
        functional::<M::Element>() ==> leading(factors.0.grid(), n as nat) == lower_factor(
            leading(m.grid(), n as nat),
        ),
        functional::<M::Element>() ==> leading(factors.1.grid(), n as nat) == upper_factor(
            leading(m.grid(), n as nat),
        ),
{
    let ghost g = leading(m.grid(), n as nat);
    let mut l = M::identity();
    let mut u = duplicate(m);
    proof {
        m.shape();
        l.shape();
    }
    let mut j: usize = 0;
    while j < n
        invariant
            j <= n <= N,
            g == leading(m.grid(), n as nat),
            has_shape(l.grid(), N as nat, N as nat),
            has_shape(u.grid(), N as nat, N as nat),
            functional::<M::Element>() ==> forall|r: int, c: int|
                0 <= r < n && 0 <= c < n ==> #[trigger] u.grid()[r][c] == eliminated(
                    g,
                    j as nat,
                )[r][c],
            functional::<M::Element>() ==> forall|r: int, c: int|
                0 <= r < n && 0 <= c < n ==> #[trigger] l.grid()[r][c] == lower_during(
                    g,
                    j as int,
                    0,
                    r,
                    c,
                ),
        decreases n - j,
    {
        let ghost s = eliminated(g, j as nat);
        proof {
            lemma_eliminated_shape(g, j as nat);
        }
        let mut i: usize = j + 1;
        while i < n
            invariant
                j < i <= n <= N,
                g == leading(m.grid(), n as nat),
                s == eliminated(g, j as nat),
                has_shape(s, n as nat, n as nat),
                has_shape(l.grid(), N as nat, N as nat),
                has_shape(u.grid(), N as nat, N as nat),
                functional::<M::Element>() ==> forall|r: int, c: int|
                    0 <= r < n && 0 <= c < n ==> #[trigger] u.grid()[r][c] == upper_during(
                        s,
                        j as int,
                        i as int,
                        j as int,
                        r,
                        c,
                    ),
                functional::<M::Element>() ==> forall|r: int, c: int|
                    0 <= r < n && 0 <= c < n ==> #[trigger] l.grid()[r][c] == lower_during(
                        g,
                        j as int,
                        i as int,
                        r,
                        c,
                    ),
            decreases n - i,
        {
            let mut factor = entry(&u, i, j).div(entry(&u, j, j));
            if factor.is_nan() {
                factor = M::Element::zero();
            }
            assert(functional::<M::Element>() ==> factor == multiplier(
                s[i as int][j as int],
                s[j as int][j as int],
            ));
            let mut k: usize = j;
            while k < n
                invariant
                    j < i < n <= N,
                    j <= k <= n,
                    has_shape(s, n as nat, n as nat),
                    has_shape(u.grid(), N as nat, N as nat),
                    functional::<M::Element>() ==> factor == multiplier(
                        s[i as int][j as int],
                        s[j as int][j as int],
                    ),
                    functional::<M::Element>() ==> forall|r: int, c: int|
                        0 <= r < n && 0 <= c < n ==> #[trigger] u.grid()[r][c] == upper_during(
                            s,
                            j as int,
                            i as int,
                            k as int,
                            r,
                            c,
                        ),
                decreases n - k,
            {
                let reduced = entry(&u, i, k).sub(factor.mul(entry(&u, j, k)));
                store(&mut u, i, k, reduced);
                proof {
                    u.shape();
                }
                k += 1;
            }
            store(&mut l, i, j, factor);
            proof {
                l.shape();
            }
            i += 1;
        }
        proof {
            if functional::<M::Element>() {
                assert forall|r: int, c: int|
                    0 <= r < n && 0 <= c < n implies #[trigger] u.grid()[r][c] == eliminated(
                    g,
                    (j + 1) as nat,
                )[r][c] by {
                    assert(eliminated(g, (j + 1) as nat) == eliminate(s, j as int));
                }
            }
        }
        j += 1;
    }
    proof {
        if functional::<M::Element>() {
            assert(leading(l.grid(), n as nat) =~~= lower_factor(g));
            lemma_eliminated_shape(g, n as nat);
            assert(leading(u.grid(), n as nat) =~~= upper_factor(g));
        }
    }
    (l, u)
}

/// The sum of the first `n` diagonal entries of `m`.
pub(crate) fn trace_leading<const N: usize, M: Matrix<N, N>>(m: &M, n: usize) -> (t: M::Element)
    requires
        n <= N,
    ensures
        functional::<M::Element>() ==> t == diagonal_sum(m.grid(), n as nat),
{
    let mut t = M::Element::zero();
    let mut i: usize = 0;
    while i < n
        invariant
            i <= n <= N,
            functional::<M::Element>() ==> t == diagonal_sum(m.grid(), i as nat),
        decreases n - i,
    {
        t = t.add(entry(m, i, i));
        i += 1;
    }
    t
}

/// The determinant of the leading `n` by `n` block of `m`.
pub(crate) fn determinant_leading<const N: usize, M: Matrix<N, N>>(
    m: &M,
    n: usize,
) -> (d: M::Element)
    requires
        n <= N,
    ensures
        functional::<M::Element>() ==> d == determinant_of(leading(m.grid(), n as nat)),
{
    let ghost g = leading(m.grid(), n as nat);
    let (l, u) = decompose_leading(m, n);
    let mut product = M::Element::one();
    let mut i: usize = 0;
    while i < n
        invariant
            i <= n <= N,
            functional::<M::Element>() ==> leading(u.grid(), n as nat) == upper_factor(g),
            functional::<M::Element>() ==> product == diagonal_product(upper_factor(g), i as nat),
        decreases n - i,
    {
        assert(leading(u.grid(), n as nat)[i as int][i as int] == u.grid()[i as int][i as int]);
        product = product.mul(entry(&u, i, i));
        i += 1;
    }
    let sum = trace_leading(&l, n);
    proof {
        lemma_diagonal_sum_leading(l.grid(), n as nat, n as nat);
    }
    product.mul(sum.signum())
}

/// The diagonal of a grid down to row `k` is that of any leading block that
/// reaches as far.
proof fn lemma_diagonal_sum_leading<E: Scalar>(g: Seq<Seq<E>>, n: nat, k: nat)
    requires
        k <= n,
    ensures
        diagonal_sum(leading(g, n), k) == diagonal_sum(g, k),
    decreases k,
{
    if k > 0 {
        lemma_diagonal_sum_leading(g, n, (k - 1) as nat);
    }
}

} // verus!
