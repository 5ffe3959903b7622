//! The matrix contract and the operations derived from it.

use super::access::{entry, store};
use super::elimination::{decompose_leading, determinant_leading, trace_leading};
use super::grid::{
    column, cofactor_of, determinant_of, has_shape, identity_grid, is_unit_lower, is_upper, leading,
    lower_factor, minor, skip, times, trace_of, upper_factor, with_entry, zero_grid,
};
use super::laws::{
    eliminates_exactly, has_no_zero_pivot, is_exact, lemma_factors_are_triangular,
    lemma_factors_multiply_back, lemma_lower_factor_is_unit_lower,
};
use super::render::{cell, cells, lines, pad_left, rendering, CELL_WIDTH};
use super::scalar::{functional, one, zero, Scalar};
use vstd::pervasive::unreached;
use vstd::prelude::*;
use vstd::string::StringExecFns;

verus! {

/// Why a matrix operation failed.
#[derive(Clone, Copy, Debug, PartialEq, Eq, Structural)]
pub enum MatrixError {
    /// A row index was not below the number of rows, or a column index not
    /// below the number of columns.
    OutOfBounds,
}

/// The grid held by a nested array: row `r` of the grid is the view of the
/// array's item `r`.
pub open spec fn array_grid<T, const R: usize, const C: usize>(a: [[T; C]; R]) -> Seq<Seq<T>> {
    Seq::new(R as nat, |r: int| a@[r]@)
}

/// A matrix of `R` rows and `C` columns.
///
/// The shape is fixed by the type. Every operation that takes an index fails
/// with [`MatrixError::OutOfBounds`] exactly when an index is not below its
/// dimension, and then changes nothing.
///
/// Moving entries about is specified for every element type. What is
/// computed from the entries is specified for the element types whose
/// operations are [`functional`]: only of those can a result be named.
pub trait Matrix<const R: usize, const C: usize>: Sized + Clone {
    /// The type of the entries.
    type Element: Scalar;

    /// The contents: `R` rows of `C` entries.
    spec fn grid(&self) -> Seq<Seq<Self::Element>>;

    /// The grid of a matrix has the shape that its type gives.
    proof fn shape(&self)
        ensures
            has_shape(self.grid(), R as nat, C as nat),
    ;

    /// The matrix whose entries are all zero.
    fn new() -> (m: Self)
        ensures
            functional::<Self::Element>() ==> m.grid() == zero_grid::<Self::Element>(
                R as nat,
                C as nat,
            ),
    ;

    /// The number of rows.
    fn row_len(&self) -> (n: usize)
        ensures
            n == R,
    {
        R
    }

    /// The number of columns.
    fn col_len(&self) -> (n: usize)
        ensures
            n == C,
    {
        C
    }

    /// The entry at row `r`, column `c`.
    fn get(&self, r: usize, c: usize) -> (res: Result<Self::Element, MatrixError>)
        ensures
            r < R && c < C ==> res == Ok::<Self::Element, MatrixError>(
                self.grid()[r as int][c as int],
            ),
            !(r < R && c < C) ==> res == Err::<Self::Element, MatrixError>(
                MatrixError::OutOfBounds,
            ),
    ;

    /// Replaces the entry at row `r`, column `c` by `v`.
    fn set(&mut self, r: usize, c: usize, v: Self::Element) -> (res: Result<(), MatrixError>)
        ensures
            r < R && c < C ==> res == Ok::<(), MatrixError>(()) && final(self).grid() == with_entry(
                old(self).grid(),
                r as int,
                c as int,
                v,
            ),
            !(r < R && c < C) ==> res == Err::<(), MatrixError>(MatrixError::OutOfBounds)
                && final(self).grid() == old(self).grid(),
    ;

    /// A copy of row `r`.
    fn row(&self, r: usize) -> (res: Result<[Self::Element; C], MatrixError>)
        ensures
            r < R ==> res is Ok && res->Ok_0@ == self.grid()[r as int],
            !(r < R) ==> res == Err::<[Self::Element; C], MatrixError>(MatrixError::OutOfBounds),
    ;

    /// A copy of column `c`.
    fn col(&self, c: usize) -> (res: Result<[Self::Element; R], MatrixError>)
        ensures
            c < C ==> res is Ok && res->Ok_0@ == column(self.grid(), c as int),
            !(c < C) ==> res == Err::<[Self::Element; R], MatrixError>(MatrixError::OutOfBounds),
    ;

    /// A copy of the whole contents as a nested array.
    fn as_list(&self) -> (list: [[Self::Element; C]; R])
        ensures
            array_grid(list) == self.grid(),
    {
        let zero = Self::Element::zero();
        let mut list = [[zero; C]; R];
        let mut r: usize = 0;
        while r < R
            invariant
                r <= R,
                forall|i: int| 0 <= i < r ==> (#[trigger] list@[i])@ == self.grid()[i],
            decreases R - r,
        {
            match self.row(r) {
                Ok(row) => {
                    list[r] = row;
                },
                Err(_) => unreached(),
            }
            r += 1;
        }
        proof {
            self.shape();
            assert(array_grid(list) =~= self.grid());
        }
        list
    }

    /// The text form: one line per row, every entry with two digits after
    /// the point, right-aligned in a cell of eight characters.
    fn to_string(&self) -> (s: String)
        ensures
            functional::<Self::Element>() ==> s@ == rendering(self.grid()),
    {
        let mut s = String::new();
        let matrix = self.as_list();
        let mut r: usize = 0;
        while r < R
            invariant
                r <= R,
                array_grid(matrix) == self.grid(),
                functional::<Self::Element>() ==> s@ == lines(self.grid(), r as nat),
            decreases R - r,
        {
            let ghost before = s@;
            let mut c: usize = 0;
            while c < C
                invariant
                    r < R,
                    c <= C,
                    array_grid(matrix) == self.grid(),
                    functional::<Self::Element>() ==> s@ == before + cells(
                        self.grid()[r as int],
                        c as nat,
                    ),
                decreases C - c,
            {
                let entry_text = matrix[r][c].to_text();
                let cell_text = pad_left(entry_text.as_str(), CELL_WIDTH);
                s.append(cell_text.as_str());
                proof {
                    assert(array_grid(matrix)[r as int][c as int] == matrix@[r as int]@[c as int]);
                    let row = self.grid()[r as int];
                    assert(before + cells(row, c as nat) + cell(row[c as int]) =~= before + cells(
                        row,
                        (c + 1) as nat,
                    ));
                }
                c += 1;
            }
            proof {
                reveal_strlit("\n");
                self.shape();
            }
            s.append("\n");
            proof {
                let row = self.grid()[r as int];
                assert((before + cells(row, C as nat)) + seq!['\n'] =~= before + cells(
                    row,
                    row.len(),
                ).push('\n'));
            }
            r += 1;
        }
        proof {
            self.shape();
        }
        s
    }
}

/// Square matrices have an identity.
pub trait Identity<const N: usize> where Self: Matrix<N, N> {
    /// The matrix with one on the diagonal and zero elsewhere.
    fn identity() -> (m: Self)
        ensures
            functional::<Self::Element>() ==> m.grid() == identity_grid::<Self::Element>(N as nat),
            functional::<Self::Element>() ==> forall|i: int|
                0 <= i < N ==> #[trigger] m.grid()[i][i] == one::<Self::Element>(),
            functional::<Self::Element>() ==> forall|i: int, j: int|
                0 <= i < N && 0 <= j < N && i != j ==> #[trigger] m.grid()[i][j] == zero::<
                    Self::Element,
                >(),
    ;
}

/// Square matrices have a trace.
pub trait Traceable<const N: usize> where Self: Matrix<N, N> {
    /// The sum of the diagonal entries, added to zero from the top left
    /// downwards.
    fn trace(&self) -> (t: Self::Element)
        ensures
            functional::<Self::Element>() ==> t == trace_of(self.grid()),
    ;
}

/// Matrices that can be transposed within their own type.
pub trait Transposable<const R: usize, const C: usize> where Self: Matrix<R, C> {
    /// The transpose: what stood at row `r`, column `c` stands at row `c`,
    /// column `r`.
    fn transpose(&self) -> Self;
}

/// Square matrices have a determinant.
pub trait Determinable<const N: usize> where Self: Matrix<N, N> {
    /// The determinant, computed from the two factors of the decomposition:
    /// the product of the upper factor's diagonal, times the sign of the
    /// lower factor's trace.
    fn determinant(&self) -> (d: Self::Element)
        ensures
            functional::<Self::Element>() ==> d == determinant_of(self.grid()),
    ;
}

/// Square matrices have cofactors.
pub trait Cofactor<const N: usize> where Self: Matrix<N, N> {
    /// The cofactor at row `r`, column `c`: the determinant of the minor
    /// without that row and column, negated where `r + c` is odd.
    fn cofactor(&self, r: usize, c: usize) -> (res: Result<Self::Element, MatrixError>)
        ensures
            r < N && c < N ==> res is Ok,
            r < N && c < N && functional::<Self::Element>() ==> res == Ok::<
                Self::Element,
                MatrixError,
            >(cofactor_of(self.grid(), r as int, c as int)),
            !(r < N && c < N) ==> res == Err::<Self::Element, MatrixError>(
                MatrixError::OutOfBounds,
            ),
    ;
}

/// Square matrices can be decomposed into a lower and an upper factor.
pub trait LUDecomposable<const N: usize> where Self: Matrix<N, N> {
    /// The lower and the upper factor of Gaussian elimination without
    /// pivoting, in this order. `self` is left as it is.
    ///
    /// A multiplier that is no number, from zero over zero, is replaced by
    /// zero. Any other division by a zero pivot is carried out, and what it
    /// gives spreads through both factors.
    ///
    /// The lower factor is lower triangular with one on its diagonal
    /// whatever the entries are; the upper factor is upper triangular where
    /// every elimination step cancels exactly. In exact arithmetic, and
    /// where no pivot is zero, the product of the factors is `self`.
    fn lu_decompose(&self) -> (factors: (Self, Self))
        ensures
            functional::<Self::Element>() ==> factors.0.grid() == lower_factor(self.grid()),
            functional::<Self::Element>() ==> factors.1.grid() == upper_factor(self.grid()),
            functional::<Self::Element>() ==> is_unit_lower(factors.0.grid()),
            functional::<Self::Element>() && eliminates_exactly(self.grid()) ==> is_upper(
                factors.1.grid(),
            ),
            functional::<Self::Element>() && is_exact::<Self::Element>() && has_no_zero_pivot(
                self.grid(),
            ) ==> times(factors.0.grid(), factors.1.grid()) == self.grid(),
    ;
}

impl<const N: usize, M: Matrix<N, N>> Identity<N> for M {
    fn identity() -> (m: Self) {
        let mut m = Self::new();
        proof {
            m.shape();
        }
        let mut i: usize = 0;
        while i < N
            invariant
                i <= N,
                has_shape(m.grid(), N as nat, N as nat),
                functional::<Self::Element>() ==> forall|r: int, c: int|
                    0 <= r < N && 0 <= c < N ==> #[trigger] m.grid()[r][c] == (if r == c && r < i {
                        one::<Self::Element>()
                    } else {
                        zero::<Self::Element>()
                    }),
            decreases N - i,
        {
            store(&mut m, i, i, Self::Element::one());
            proof {
                m.shape();
            }
            i += 1;
        }
        assert(functional::<Self::Element>() ==> m.grid() =~~= identity_grid::<Self::Element>(
            N as nat,
        ));
        m
    }
}

impl<const N: usize, M: Matrix<N, N>> Traceable<N> for M {
    fn trace(&self) -> (t: Self::Element) {
        proof {
            self.shape();
        }
        trace_leading(self, N)
    }
}

impl<const N: usize, M: Matrix<N, N>> LUDecomposable<N> for M {
    fn lu_decompose(&self) -> (factors: (Self, Self)) {
        let factors = decompose_leading(self, N);
        proof {
            self.shape();
            factors.0.shape();
            factors.1.shape();
            assert(leading(self.grid(), N as nat) =~~= self.grid());
            assert(leading(factors.0.grid(), N as nat) =~~= factors.0.grid());
            assert(leading(factors.1.grid(), N as nat) =~~= factors.1.grid());
            lemma_lower_factor_is_unit_lower(self.grid());
            if eliminates_exactly(self.grid()) {
                lemma_factors_are_triangular(self.grid());
            }
            if is_exact::<Self::Element>() && has_no_zero_pivot(self.grid()) {
                lemma_factors_multiply_back(self.grid());
            }
        }
        factors
    }
}

impl<const N: usize, M: Matrix<N, N> + LUDecomposable<N> + Traceable<N>> Determinable<N> for M {
    fn determinant(&self) -> (d: Self::Element) {
        proof {
            self.shape();
            assert(leading(self.grid(), N as nat) =~~= self.grid());
        }
        determinant_leading(self, N)
    }
}

impl<const N: usize, M: Matrix<N, N>> Cofactor<N> for M {
    fn cofactor(&self, r: usize, c: usize) -> (res: Result<Self::Element, MatrixError>) {
        if !(r < N && c < N) {
            return Err(MatrixError::OutOfBounds);
        }
        proof {
            self.shape();
        }
        let ghost wanted = minor(self.grid(), r as int, c as int);
        let mut sub = Self::new();
        proof {
            sub.shape();
        }
        let mut i: usize = 0;
        while i < N - 1
            invariant
                r < N,
                c < N,
                i <= N - 1,
                has_shape(self.grid(), N as nat, N as nat),
                has_shape(sub.grid(), N as nat, N as nat),
                wanted == minor(self.grid(), r as int, c as int),
                forall|a: int, b: int|
                    0 <= a < i && 0 <= b < N - 1 ==> #[trigger] sub.grid()[a][b] == wanted[a][b],
            decreases N - 1 - i,
        {
            let row = if i < r {
                i
            } else {
                i + 1
            };
            let mut j: usize = 0;
            while j < N - 1
                invariant
                    r < N,
                    c < N,
                    i < N - 1,
                    j <= N - 1,
                    row == skip(i as int, r as int),
                    has_shape(self.grid(), N as nat, N as nat),
                    has_shape(sub.grid(), N as nat, N as nat),
                    wanted == minor(self.grid(), r as int, c as int),
                    forall|a: int, b: int|
                        0 <= a < i && 0 <= b < N - 1 ==> #[trigger] sub.grid()[a][b]
                            == wanted[a][b],
                    forall|b: int|
                        0 <= b < j ==> #[trigger] sub.grid()[i as int][b] == wanted[i as int][b],
                decreases N - 1 - j,
            {
                let col = if j < c {
                    j
                } else {
                    j + 1
                };
                store(&mut sub, i, j, entry(self, row, col));
                proof {
                    sub.shape();
                }
                j += 1;
            }
            i += 1;
        }
        assert(leading(sub.grid(), (N - 1) as nat) =~~= wanted);
        let sub_det = determinant_leading(&sub, N - 1);
        let factor = if r % 2 == c % 2 {
            Self::Element::one()
        } else {
            Self::Element::one().neg()
        };
        Ok(factor.mul(sub_det))
    }
}

} // verus!
