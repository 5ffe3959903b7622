//! Laws that hold of the derivations, whatever the element type.

use super::grid::{
    count, determinant_of, diagonal_product, diagonal_sum, dot, eliminate, eliminated, has_shape,
    identity_grid, is_square, is_unit_lower, is_upper, lower_factor, multiplier, residual, times,
    trace_of, upper_factor,
};
use super::scalar::{difference, is_nan, one, product, quotient, sign, sum, zero, Scalar};
use vstd::prelude::*;

verus! {

/// Every elimination step of the decomposition of `g` cancels exactly: in
/// each row below the pivot, what is left in the pivot column once the scaled
/// pivot has been subtracted is zero.
///
/// In exact arithmetic this holds whenever no pivot is zero. In rounding
/// arithmetic a step may leave a rounding error behind, and a zero pivot
/// under an entry other than zero leaves a value that is no number.
pub open spec fn eliminates_exactly<E: Scalar>(g: Seq<Seq<E>>) -> bool {
    forall|i: int, j: int|
        0 <= j < i < g.len() ==> residual(
            #[trigger] eliminated(g, j as nat)[i][j],
            eliminated(g, j as nat)[j][j],
        ) == zero::<E>()
}

/// The arithmetic of `E` divides exactly: an entry less its quotient by a
/// divisor other than zero, times that divisor, is zero. This holds of exact
/// arithmetic, and not of rounding arithmetic.
pub open spec fn divides_exactly<E: Scalar>() -> bool {
    forall|entry: E, pivot: E|
        pivot != zero::<E>() ==> #[trigger] residual(entry, pivot) == zero::<E>()
}

/// The arithmetic of `E` is exact as far as the decomposition needs it:
/// addition is associative and commutative with zero as its identity,
/// subtraction undoes it, one and zero multiply as they should, and division
/// is exact. This holds of a field, and not of rounding arithmetic.
#[verifier::opaque]
pub open spec fn is_exact<E: Scalar>() -> bool {
    &&& forall|a: E, b: E, c: E| sum(sum(a, b), c) == sum(a, sum(b, c))
    &&& forall|a: E, b: E| sum(a, b) == sum(b, a)
    &&& forall|a: E| sum(a, zero::<E>()) == a
    &&& forall|a: E, b: E| sum(difference(a, b), b) == a
    &&& forall|a: E| product(one::<E>(), a) == a
    &&& forall|a: E| product(zero::<E>(), a) == zero::<E>()
    &&& forall|a: E| product(a, zero::<E>()) == zero::<E>()
    &&& divides_exactly::<E>()
}

/// No elimination step of the decomposition of `g` divides by zero: the
/// pivots, which are the diagonal entries of the upper factor but the last,
/// are other than zero.
pub open spec fn has_no_zero_pivot<E: Scalar>(g: Seq<Seq<E>>) -> bool {
    forall|j: int| 0 <= j < g.len() - 1 ==> #[trigger] upper_factor(g)[j][j] != zero::<E>()
}

/// The sum of the diagonal of the identity, down to row `k`, is `k`.
pub proof fn lemma_diagonal_sum_of_identity<E: Scalar>(n: nat, k: nat)
    requires
        k <= n,
    ensures
        diagonal_sum(identity_grid::<E>(n), k) == count::<E>(k),
    decreases k,
{
    if k > 0 {
        lemma_diagonal_sum_of_identity::<E>(n, (k - 1) as nat);
    }
}

/// The trace of the identity of size `n` is `n`.
pub proof fn lemma_trace_of_identity<E: Scalar>(n: nat)
    ensures
        trace_of(identity_grid::<E>(n)) == count::<E>(n),
{
    lemma_diagonal_sum_of_identity::<E>(n, n);
}

/// The sum of the diagonal of a grid with one on its diagonal, down to row
/// `k`, is `k`.
pub proof fn lemma_diagonal_sum_of_unit_lower<E: Scalar>(g: Seq<Seq<E>>, k: nat)
    requires
        is_unit_lower(g),
        k <= g.len(),
    ensures
        diagonal_sum(g, k) == count::<E>(k),
    decreases k,
{
    if k > 0 {
        lemma_diagonal_sum_of_unit_lower(g, (k - 1) as nat);
    }
}

/// The lower factor of a square grid is lower triangular with one on its
/// diagonal, whatever the entries of the grid are.
pub proof fn lemma_lower_factor_is_unit_lower<E: Scalar>(g: Seq<Seq<E>>)
    ensures
        is_unit_lower(lower_factor(g)),
{
}

/// The sign term of the determinant depends on the size alone: the trace of
/// the lower factor is the size, so the determinant of a grid of size `n` is
/// the product of the upper factor's diagonal, times the sign of `n`.
pub proof fn lemma_determinant_sign_term<E: Scalar>(g: Seq<Seq<E>>)
    ensures
        determinant_of(g) == product(
            diagonal_product(upper_factor(g), g.len()),
            sign(count::<E>(g.len())),
        ),
{
    lemma_lower_factor_is_unit_lower(g);
    lemma_diagonal_sum_of_unit_lower(lower_factor(g), g.len());
}

/// Elimination keeps the shape of a square grid.
pub proof fn lemma_eliminated_shape<E: Scalar>(g: Seq<Seq<E>>, j: nat)
    requires
        is_square(g),
    ensures
        has_shape(eliminated(g, j), g.len(), g.len()),
    decreases j,
{
    if j > 0 {
        lemma_eliminated_shape(g, (j - 1) as nat);
    }
}

/// The steps from pivot `j` on leave the columns before `j` as they are, and
/// the rows down to row `j` as well: what stands there after `j` steps
/// stands there after any later number `k` of steps.
pub proof fn lemma_eliminated_settles<E: Scalar>(g: Seq<Seq<E>>, j: nat, k: nat, r: int, c: int)
    requires
        is_square(g),
        j <= k,
        0 <= r < g.len(),
        0 <= c < g.len(),
        c < j || r <= j,
    ensures
        eliminated(g, k)[r][c] == eliminated(g, j)[r][c],
    decreases k,
{
    if k > j {
        lemma_eliminated_settles(g, j, (k - 1) as nat, r, c);
        lemma_eliminated_shape(g, (k - 1) as nat);
    }
}

/// Below the diagonal, the upper factor holds what the elimination step of
/// that column left there: at row `i`, column `j`, the residual of the entry
/// against the pivot of step `j`.
pub proof fn lemma_upper_factor_below_diagonal<E: Scalar>(g: Seq<Seq<E>>, i: int, j: int)
    requires
        is_square(g),
        0 <= j < i < g.len(),
    ensures
        upper_factor(g)[i][j] == residual(
            eliminated(g, j as nat)[i][j],
            eliminated(g, j as nat)[j][j],
        ),
{
    lemma_eliminated_shape(g, j as nat);
    lemma_eliminated_shape(g, (j + 1) as nat);
    lemma_eliminated_settles(g, (j + 1) as nat, g.len(), i, j);
    assert(eliminated(g, (j + 1) as nat) == eliminate(eliminated(g, j as nat), j));
}

/// On its diagonal, the upper factor holds the pivots: at row and column
/// `j`, the entry by which step `j` divided.
pub proof fn lemma_upper_factor_diagonal<E: Scalar>(g: Seq<Seq<E>>, j: int)
    requires
        is_square(g),
        0 <= j < g.len(),
    ensures
        upper_factor(g)[j][j] == eliminated(g, j as nat)[j][j],
{
    lemma_eliminated_settles(g, j as nat, g.len(), j, j);
}

/// Where every elimination step cancels exactly, the two factors have their
/// shape: the lower factor is lower triangular with one on its diagonal, and
/// the upper factor is upper triangular.
pub proof fn lemma_factors_are_triangular<E: Scalar>(g: Seq<Seq<E>>)
    requires
        is_square(g),
        eliminates_exactly(g),
    ensures
        is_unit_lower(lower_factor(g)),
        is_upper(upper_factor(g)),
{
    lemma_lower_factor_is_unit_lower(g);
    lemma_eliminated_shape(g, g.len());
    assert forall|i: int, j: int| 0 <= j < i < g.len() implies #[trigger] upper_factor(g)[i][j]
        == zero::<E>() by {
        lemma_upper_factor_below_diagonal(g, i, j);
        assert(residual(eliminated(g, j as nat)[i][j], eliminated(g, j as nat)[j][j])
            == zero::<E>());
    }
}

/// In arithmetic that divides exactly, every elimination step cancels
/// exactly where no pivot is zero; so the factors of such a grid are
/// triangular.
pub proof fn lemma_exact_division_eliminates_exactly<E: Scalar>(g: Seq<Seq<E>>)
    requires
        is_square(g),
        divides_exactly::<E>(),
        has_no_zero_pivot(g),
    ensures
        eliminates_exactly(g),
        is_unit_lower(lower_factor(g)),
        is_upper(upper_factor(g)),
{
    assert forall|i: int, j: int| 0 <= j < i < g.len() implies residual(
        #[trigger] eliminated(g, j as nat)[i][j],
        eliminated(g, j as nat)[j][j],
    ) == zero::<E>() by {
        lemma_upper_factor_diagonal(g, j);
        assert(upper_factor(g)[j][j] != zero::<E>());
    }
    lemma_factors_are_triangular(g);
}

/// In exact arithmetic, the factors of a square grid without a zero pivot
/// are triangular.
proof fn lemma_exact_factors_are_triangular<E: Scalar>(g: Seq<Seq<E>>)
    requires
        is_square(g),
        is_exact::<E>(),
        has_no_zero_pivot(g),
    ensures
        is_unit_lower(lower_factor(g)),
        is_upper(upper_factor(g)),
{
    assert(divides_exactly::<E>()) by {
        reveal(is_exact);
    }
    lemma_exact_division_eliminates_exactly(g);
}

/// In exact arithmetic, `(d + x) + (a - x)` is `d + a`.
proof fn lemma_add_back<E: Scalar>(d: E, x: E, a: E)
    requires
        is_exact::<E>(),
    ensures
        sum(sum(d, x), difference(a, x)) == sum(d, a),
{
    reveal(is_exact);
    assert(sum(sum(d, x), difference(a, x)) == sum(d, sum(x, difference(a, x))));
    assert(sum(x, difference(a, x)) == sum(difference(a, x), x));
}

/// In exact arithmetic, adding a product with zero on either side changes
/// nothing.
proof fn lemma_add_nothing<E: Scalar>(d: E, m: E)
    requires
        is_exact::<E>(),
    ensures
        sum(d, product(m, zero::<E>())) == d,
        sum(d, product(zero::<E>(), m)) == d,
        sum(zero::<E>(), d) == d,
        sum(d, product(one::<E>(), m)) == sum(d, m),
{
    reveal(is_exact);
    assert(sum(zero::<E>(), d) == sum(d, zero::<E>()));
}

/// In exact arithmetic without a zero pivot, the entry of `g` at row `i`,
/// column `c` is, after `j` elimination steps, the sum of what the steps
/// took away from it, which is the part of the product of the factors that
/// the columns before `j` of the lower factor give, and of what is left.
proof fn lemma_split_after<E: Scalar>(g: Seq<Seq<E>>, j: nat, i: int, c: int)
    requires
        is_square(g),
        is_exact::<E>(),
        has_no_zero_pivot(g),
        j <= g.len(),
        0 <= i < g.len(),
        0 <= c < g.len(),
    ensures
        g[i][c] == sum(
            dot(lower_factor(g)[i], upper_factor(g), c, if i < j { i as nat } else { j }),
            eliminated(g, j)[i][c],
        ),
    decreases j,
{
    let l = lower_factor(g);
    let u = upper_factor(g);
    if j == 0 {
        lemma_add_nothing(g[i][c], zero::<E>());
    } else {
        let p = (j - 1) as nat;
        let before = eliminated(g, p);
        lemma_split_after(g, p, i, c);
        lemma_eliminated_shape(g, p);
        assert(eliminated(g, j) == eliminate(before, p as int));
        if i > p {
            let d = dot(l[i], u, c, p);
            let m = l[i][p as int];
            assert(m == multiplier(before[i][p as int], before[p as int][p as int]));
            assert(dot(l[i], u, c, j) == sum(d, product(m, u[p as int][c])));
            lemma_eliminated_settles(g, p, g.len(), p as int, c);
            assert(u[p as int][c] == before[p as int][c]);
            if c >= p {
                assert(eliminated(g, j)[i][c] == difference(
                    before[i][c],
                    product(m, before[p as int][c]),
                ));
                lemma_add_back(d, product(m, before[p as int][c]), before[i][c]);
            } else {
                assert(eliminated(g, j)[i][c] == before[i][c]);
                lemma_exact_factors_are_triangular(g);
                lemma_eliminated_shape(g, g.len());
                assert(u[p as int][c] == zero::<E>());
                lemma_add_nothing(d, m);
            }
        } else {
            assert(eliminated(g, j)[i][c] == before[i][c]);
        }
    }
}

/// In exact arithmetic, the part of the product of the factors at row `i`
/// that the columns of the lower factor up to `k` give, for `k` beyond the
/// diagonal, is the part before the diagonal and the entry of the upper
/// factor: the lower factor has one on its diagonal and zero after it.
proof fn lemma_dot_beyond_diagonal<E: Scalar>(g: Seq<Seq<E>>, i: int, c: int, k: nat)
    requires
        is_square(g),
        is_exact::<E>(),
        0 <= i < k <= g.len(),
        0 <= c < g.len(),
    ensures
        dot(lower_factor(g)[i], upper_factor(g), c, k) == sum(
            dot(lower_factor(g)[i], upper_factor(g), c, i as nat),
            upper_factor(g)[i][c],
        ),
    decreases k,
{
    let l = lower_factor(g);
    let u = upper_factor(g);
    if k == i + 1 {
        assert(l[i][i] == one::<E>());
        lemma_add_nothing(dot(l[i], u, c, i as nat), u[i][c]);
    } else {
        lemma_dot_beyond_diagonal(g, i, c, (k - 1) as nat);
        assert(l[i][k - 1] == zero::<E>());
        lemma_add_nothing(dot(l[i], u, c, (k - 1) as nat), u[k - 1][c]);
    }
}

/// In exact arithmetic, the product of the two factors of a square grid
/// without a zero pivot is the grid.
pub proof fn lemma_factors_multiply_back<E: Scalar>(g: Seq<Seq<E>>)
    requires
        is_square(g),
        is_exact::<E>(),
        has_no_zero_pivot(g),
    ensures
        times(lower_factor(g), upper_factor(g)) == g,
{
    let n = g.len();
    let l = lower_factor(g);
    let u = upper_factor(g);
    assert forall|i: int, c: int| 0 <= i < n && 0 <= c < n implies #[trigger] times(l, u)[i][c]
        == g[i][c] by {
        lemma_split_after(g, n, i, c);
        lemma_dot_beyond_diagonal(g, i, c, n);
    }
    assert(times(l, u) =~~= g);
}

/// Where an elimination step divides zero by zero, so that the quotient is
/// no number, the multiplier stored in the lower factor is zero.
pub proof fn lemma_degenerate_multiplier_is_zero<E: Scalar>(g: Seq<Seq<E>>, i: int, j: int)
    requires
        0 <= j < i < g.len(),
        is_nan(quotient(eliminated(g, j as nat)[i][j], eliminated(g, j as nat)[j][j])),
    ensures
        lower_factor(g)[i][j] == zero::<E>(),
{
}

} // verus!
