//! The mathematical model of a matrix and of the values derived from it.
//!
//! A matrix is modelled by its grid: the sequence of its rows, each row the
//! sequence of its entries. Everything the library computes is defined here
//! as a function of grids, over the values that the operations of
//! [`Scalar`](super::scalar::Scalar) return.

use super::scalar::{
    difference, is_nan, negation, one, product, quotient, sign, sum, zero, Scalar,
};
use vstd::prelude::*;

verus! {

/// `g` has `rows` rows of `cols` entries each.
pub open spec fn has_shape<E>(g: Seq<Seq<E>>, rows: nat, cols: nat) -> bool {
    &&& g.len() == rows
    &&& forall|r: int| 0 <= r < rows ==> (#[trigger] g[r]).len() == cols
}

/// `g` has as many columns as rows.
pub open spec fn is_square<E>(g: Seq<Seq<E>>) -> bool {
    has_shape(g, g.len(), g.len())
}

/// The grid of the given shape whose entries are all zero.
pub open spec fn zero_grid<E: Scalar>(rows: nat, cols: nat) -> Seq<Seq<E>> {
    Seq::new(rows, |r: int| Seq::new(cols, |c: int| zero::<E>()))
}

/// The `n` by `n` grid with one on the diagonal and zero elsewhere.
pub open spec fn identity_grid<E: Scalar>(n: nat) -> Seq<Seq<E>> {
    Seq::new(
        n,
        |r: int|
            Seq::new(
                n,
                |c: int|
                    if r == c {
                        one::<E>()
                    } else {
                        zero::<E>()
                    },
            ),
    )
}

/// `g` with the entry at row `r`, column `c` replaced by `v`.
pub open spec fn with_entry<E>(g: Seq<Seq<E>>, r: int, c: int, v: E) -> Seq<Seq<E>> {
    g.update(r, g[r].update(c, v))
}

/// Column `c` of `g`, top to bottom.
pub open spec fn column<E>(g: Seq<Seq<E>>, c: int) -> Seq<E> {
    Seq::new(g.len(), |r: int| g[r][c])
}

/// The top left `n` by `n` block of `g`.
pub open spec fn leading<E>(g: Seq<Seq<E>>, n: nat) -> Seq<Seq<E>> {
    Seq::new(n, |r: int| Seq::new(n, |c: int| g[r][c]))
}

/// The number `n` as an element: one added to zero `n` times.
pub open spec fn count<E: Scalar>(n: nat) -> E
    decreases n,
{
    if n == 0 {
        zero::<E>()
    } else {
        sum(count::<E>((n - 1) as nat), one::<E>())
    }
}

/// The sum of the first `n` diagonal entries of `g`, added to zero from the
/// top left downwards.
pub open spec fn diagonal_sum<E: Scalar>(g: Seq<Seq<E>>, n: nat) -> E
    decreases n,
{
    if n == 0 {
        zero::<E>()
    } else {
        sum(diagonal_sum(g, (n - 1) as nat), g[n - 1][n - 1])
    }
}

/// The product of the first `n` diagonal entries of `g`, multiplied onto one
/// from the top left downwards.
pub open spec fn diagonal_product<E: Scalar>(g: Seq<Seq<E>>, n: nat) -> E
    decreases n,
{
    if n == 0 {
        one::<E>()
    } else {
        product(diagonal_product(g, (n - 1) as nat), g[n - 1][n - 1])
    }
}

/// The trace of a square grid.
pub open spec fn trace_of<E: Scalar>(g: Seq<Seq<E>>) -> E {
    diagonal_sum(g, g.len())
}

/// The factor by which the pivot row is scaled before it is subtracted from
/// a row whose entry in the pivot column is `entry`: their quotient, or zero
/// where the quotient is not a number (zero over zero).
pub open spec fn multiplier<E: Scalar>(entry: E, pivot: E) -> E {
    let q = quotient(entry, pivot);
    if is_nan(q) {
        zero::<E>()
    } else {
        q
    }
}

/// What is left of `entry` once the pivot, scaled by their multiplier, has
/// been subtracted from it. In exact arithmetic with a pivot other than zero
/// this is zero.
pub open spec fn residual<E: Scalar>(entry: E, pivot: E) -> E {
    difference(entry, product(multiplier(entry, pivot), pivot))
}

/// `row` after the elimination step with pivot column `j`: from column `j`
/// on, the scaled pivot row is subtracted; the columns before `j` are kept.
pub open spec fn reduce_row<E: Scalar>(row: Seq<E>, pivot_row: Seq<E>, j: int) -> Seq<E> {
    let m = multiplier(row[j], pivot_row[j]);
    Seq::new(
        row.len(),
        |k: int|
            if k >= j {
                difference(row[k], product(m, pivot_row[k]))
            } else {
                row[k]
            },
    )
}

/// `g` after the elimination step with pivot `j`: every row below row `j` is
/// reduced by row `j`; the other rows are kept.
pub open spec fn eliminate<E: Scalar>(g: Seq<Seq<E>>, j: int) -> Seq<Seq<E>> {
    Seq::new(
        g.len(),
        |i: int|
            if i > j {
                reduce_row(g[i], g[j], j)
            } else {
                g[i]
            },
    )
}

/// `g` after the elimination steps with pivots `0` to `j - 1`, in that order.
pub open spec fn eliminated<E: Scalar>(g: Seq<Seq<E>>, j: nat) -> Seq<Seq<E>>
    decreases j,
{
    if j == 0 {
        g
    } else {
        eliminate(eliminated(g, (j - 1) as nat), j - 1)
    }
}

/// The upper factor of the decomposition of a square grid: the grid after
/// every elimination step.
pub open spec fn upper_factor<E: Scalar>(g: Seq<Seq<E>>) -> Seq<Seq<E>> {
    eliminated(g, g.len())
}

/// The lower factor of the decomposition of a square grid: one on the
/// diagonal, zero above it, and below it, at row `i` and column `j`, the
/// multiplier by which step `j` scaled its pivot row for row `i`.
pub open spec fn lower_factor<E: Scalar>(g: Seq<Seq<E>>) -> Seq<Seq<E>> {
    Seq::new(
        g.len(),
        |i: int|
            Seq::new(
                g.len(),
                |j: int|
                    if i == j {
                        one::<E>()
                    } else if j < i {
                        let before = eliminated(g, j as nat);
                        multiplier(before[i][j], before[j][j])
                    } else {
                        zero::<E>()
                    },
            ),
    )
}

/// The determinant of a square grid: the product of the diagonal of its
/// upper factor, times the sign of the trace of its lower factor.
pub open spec fn determinant_of<E: Scalar>(g: Seq<Seq<E>>) -> E {
    product(diagonal_product(upper_factor(g), g.len()), sign(trace_of(lower_factor(g))))
}

/// The index in a grid of what stands at index `i` once index `skipped` has
/// been left out.
pub open spec fn skip(i: int, skipped: int) -> int {
    if i < skipped {
        i
    } else {
        i + 1
    }
}

/// The minor of a square grid: the grid without row `r` and column `c`, the
/// remaining entries in their order.
pub open spec fn minor<E>(g: Seq<Seq<E>>, r: int, c: int) -> Seq<Seq<E>> {
    Seq::new(
        (g.len() - 1) as nat,
        |i: int| Seq::new((g.len() - 1) as nat, |j: int| g[skip(i, r)][skip(j, c)]),
    )
}

/// The sign of the cofactor at row `r`, column `c`: one where `r + c` is
/// even, minus one where it is odd.
pub open spec fn cofactor_sign<E: Scalar>(r: int, c: int) -> E {
    if (r + c) % 2 == 0 {
        one::<E>()
    } else {
        negation(one::<E>())
    }
}

/// The cofactor of a square grid at row `r`, column `c`: the signed
/// determinant of the minor.
pub open spec fn cofactor_of<E: Scalar>(g: Seq<Seq<E>>, r: int, c: int) -> E {
    product(cofactor_sign::<E>(r, c), determinant_of(minor(g, r, c)))
}

/// The sum of the products of the first `k` entries of `row` with the
/// entries of column `c` of `g` that stand in the rows of the same number,
/// added to zero in this order.
pub open spec fn dot<E: Scalar>(row: Seq<E>, g: Seq<Seq<E>>, c: int, k: nat) -> E
    decreases k,
{
    if k == 0 {
        zero::<E>()
    } else {
        sum(dot(row, g, c, (k - 1) as nat), product(row[k - 1], g[k - 1][c]))
    }
}

/// The product of two square grids of the same size.
pub open spec fn times<E: Scalar>(a: Seq<Seq<E>>, b: Seq<Seq<E>>) -> Seq<Seq<E>> {
    Seq::new(a.len(), |i: int| Seq::new(a.len(), |c: int| dot(a[i], b, c, a.len())))
}

/// `g` is lower triangular with one on its diagonal.
pub open spec fn is_unit_lower<E: Scalar>(g: Seq<Seq<E>>) -> bool {
    &&& is_square(g)
    &&& forall|i: int| 0 <= i < g.len() ==> #[trigger] g[i][i] == one::<E>()
    &&& forall|i: int, j: int| 0 <= i < j < g.len() ==> #[trigger] g[i][j] == zero::<E>()
}

/// `g` is upper triangular.
pub open spec fn is_upper<E: Scalar>(g: Seq<Seq<E>>) -> bool {
    &&& is_square(g)
    &&& forall|i: int, j: int| 0 <= j < i < g.len() ==> #[trigger] g[i][j] == zero::<E>()
}

} // verus!
