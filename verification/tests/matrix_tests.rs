use std::fmt::{Debug, Display};

use mathkit::matrix::{
    Cofactor, Determinable, Identity, LUDecomposable, Matrix, MatrixError, Scalar, SquareMatrix,
    Traceable,
};
use num_traits::Float;

#[derive(Clone, Copy, Debug, PartialEq)]
struct Number<T>(T);

impl<T: Float + Debug + Display> Scalar for Number<T> {
    fn zero() -> Self {
        Number(T::zero())
    }

    fn one() -> Self {
        Number(T::one())
    }

    fn add(self, rhs: Self) -> Self {
        Number(self.0 + rhs.0)
    }

    fn sub(self, rhs: Self) -> Self {
        Number(self.0 - rhs.0)
    }

    fn mul(self, rhs: Self) -> Self {
        Number(self.0 * rhs.0)
    }

    fn div(self, rhs: Self) -> Self {
        Number(self.0 / rhs.0)
    }

    fn neg(self) -> Self {
        Number(-self.0)
    }

    fn is_nan(self) -> bool {
        self.0.is_nan()
    }

    fn signum(self) -> Self {
        Number(self.0.signum())
    }

    fn to_text(self) -> String {
        format!("{:.2}", self.0)
    }
}

type Real = Number<f64>;

fn num(value: f64) -> Real {
    Number(value)
}

fn reals<const R: usize, const C: usize>(values: [[f64; C]; R]) -> [[Real; C]; R] {
    let mut m = [[num(0.0); C]; R];
    for r in 0..R {
        for c in 0..C {
            m[r][c] = num(values[r][c]);
        }
    }
    m
}

fn square<const N: usize>(values: [[f64; N]; N]) -> SquareMatrix<N, Real> {
    let mut m: SquareMatrix<N, Real> = Matrix::new();
    for r in 0..N {
        for c in 0..N {
            assert_eq!(m.set(r, c, num(values[r][c])), Ok(()));
        }
    }
    m
}

fn sample() -> [[Real; 3]; 3] {
    reals([[1.0, 2.0, 3.0], [4.0, 5.0, 6.0], [7.0, 8.0, 10.0]])
}

#[test]
fn new_is_all_zero() {
    let m: [[Real; 3]; 2] = Matrix::new();
    assert_eq!(m, reals([[0.0, 0.0, 0.0], [0.0, 0.0, 0.0]]));
    let s: SquareMatrix<2, Real> = Matrix::new();
    assert_eq!(s.as_list(), reals([[0.0, 0.0], [0.0, 0.0]]));
}

#[test]
fn dimensions_are_those_of_the_type() {
    let m: [[Real; 3]; 2] = Matrix::new();
    assert_eq!(m.row_len(), 2);
    assert_eq!(m.col_len(), 3);
    let s: SquareMatrix<4, Real> = Matrix::new();
    assert_eq!(s.row_len(), 4);
    assert_eq!(s.col_len(), 4);
}

#[test]
fn get_returns_the_entry() {
    let m = sample();
    assert_eq!(m.get(0, 0), Ok(num(1.0)));
    assert_eq!(m.get(1, 2), Ok(num(6.0)));
    assert_eq!(m.get(2, 1), Ok(num(8.0)));
    let s = square([[1.0, 2.0], [3.0, 4.0]]);
    assert_eq!(s.get(1, 0), Ok(num(3.0)));
}

#[test]
fn set_replaces_one_entry() {
    let mut m = sample();
    assert_eq!(m.set(1, 2, num(-6.5)), Ok(()));
    assert_eq!(m, reals([[1.0, 2.0, 3.0], [4.0, 5.0, -6.5], [7.0, 8.0, 10.0]]));
    let mut s = square([[1.0, 2.0], [3.0, 4.0]]);
    assert_eq!(s.set(0, 1, num(9.0)), Ok(()));
    assert_eq!(s.as_list(), reals([[1.0, 9.0], [3.0, 4.0]]));
}

#[test]
fn row_and_col_copy_a_line() {
    let m = reals([[1.0, 2.0, 3.0], [4.0, 5.0, 6.0]]);
    assert_eq!(m.row(1), Ok([num(4.0), num(5.0), num(6.0)]));
    assert_eq!(m.col(2), Ok([num(3.0), num(6.0)]));
    let s = square([[1.0, 2.0], [3.0, 4.0]]);
    assert_eq!(s.row(0), Ok([num(1.0), num(2.0)]));
    assert_eq!(s.col(0), Ok([num(1.0), num(3.0)]));
}

#[test]
fn as_list_is_an_independent_copy() {
    let mut s = square([[1.0, 2.0], [3.0, 4.0]]);
    let copy = s.as_list();
    assert_eq!(s.set(0, 0, num(5.0)), Ok(()));
    assert_eq!(copy, reals([[1.0, 2.0], [3.0, 4.0]]));
    assert_eq!(s.as_list(), reals([[5.0, 2.0], [3.0, 4.0]]));
}

#[test]
fn get_one_past_the_end_is_out_of_bounds() {
    let m = sample();
    assert_eq!(m.get(3, 0), Err(MatrixError::OutOfBounds));
    assert_eq!(m.get(0, 3), Err(MatrixError::OutOfBounds));
    assert_eq!(m.get(3, 3), Err(MatrixError::OutOfBounds));
    let s = square([[1.0, 2.0], [3.0, 4.0]]);
    assert_eq!(s.get(2, 0), Err(MatrixError::OutOfBounds));
    assert_eq!(s.get(0, 2), Err(MatrixError::OutOfBounds));
}

#[test]
fn set_one_past_the_end_is_out_of_bounds_and_changes_nothing() {
    let mut m = sample();
    assert_eq!(m.set(3, 0, num(9.0)), Err(MatrixError::OutOfBounds));
    assert_eq!(m.set(0, 3, num(9.0)), Err(MatrixError::OutOfBounds));
    assert_eq!(m, sample());
    let mut s = square([[1.0, 2.0], [3.0, 4.0]]);
    assert_eq!(s.set(2, 1, num(9.0)), Err(MatrixError::OutOfBounds));
    assert_eq!(s.set(1, 2, num(9.0)), Err(MatrixError::OutOfBounds));
    assert_eq!(s.as_list(), reals([[1.0, 2.0], [3.0, 4.0]]));
}

#[test]
fn row_and_col_one_past_the_end_are_out_of_bounds() {
    let m = reals([[1.0, 2.0, 3.0], [4.0, 5.0, 6.0]]);
    assert_eq!(m.row(2), Err(MatrixError::OutOfBounds));
    assert_eq!(m.col(3), Err(MatrixError::OutOfBounds));
    assert!(m.col(2).is_ok());
    let s = square([[1.0, 2.0], [3.0, 4.0]]);
    assert_eq!(s.row(2), Err(MatrixError::OutOfBounds));
    assert_eq!(s.col(2), Err(MatrixError::OutOfBounds));
}

#[test]
fn cofactor_one_past_the_end_is_out_of_bounds() {
    let m = sample();
    assert_eq!(m.cofactor(3, 0), Err(MatrixError::OutOfBounds));
    assert_eq!(m.cofactor(0, 3), Err(MatrixError::OutOfBounds));
    let s = square([[1.0, 2.0], [3.0, 4.0]]);
    assert_eq!(s.cofactor(2, 2), Err(MatrixError::OutOfBounds));
}

#[test]
fn identity_has_one_on_the_diagonal_and_zero_elsewhere() {
    let i: [[Real; 4]; 4] = Identity::identity();
    for r in 0..4 {
        for c in 0..4 {
            let expected = if r == c { 1.0 } else { 0.0 };
            assert_eq!(i.get(r, c), Ok(num(expected)));
        }
    }
    let one: [[Real; 1]; 1] = Identity::identity();
    assert_eq!(one, reals([[1.0]]));
    let s: SquareMatrix<3, Real> = Identity::identity();
    assert_eq!(
        s.as_list(),
        reals([[1.0, 0.0, 0.0], [0.0, 1.0, 0.0], [0.0, 0.0, 1.0]])
    );
}

#[test]
fn trace_of_identity_is_its_size() {
    let i1: [[Real; 1]; 1] = Identity::identity();
    assert_eq!(i1.trace(), num(1.0));
    let i3: [[Real; 3]; 3] = Identity::identity();
    assert_eq!(i3.trace(), num(3.0));
    let i7: SquareMatrix<7, Real> = Identity::identity();
    assert_eq!(i7.trace(), num(7.0));
}

#[test]
fn trace_of_the_empty_matrix_is_zero() {
    let m: [[Real; 0]; 0] = Matrix::new();
    assert_eq!(m.trace(), num(0.0));
}

#[test]
fn sample_trace_is_sixteen() {
    assert_eq!(sample().trace(), num(16.0));
}

#[test]
fn sample_determinant_is_minus_three() {
    assert_eq!(sample().determinant(), num(-3.0));
}

#[test]
fn sample_cofactor_at_origin_is_two() {
    let c = sample().cofactor(0, 0).unwrap();
    assert!((c.0 - 2.0).abs() < 1e-12);
    let multiplier = 8.0 / 5.0;
    let pivot = 10.0 - multiplier * 6.0;
    assert_eq!(c, num(1.0 * (1.0 * 5.0 * pivot * 1.0)));
}

#[test]
fn sample_cofactors() {
    let m = sample();
    assert_eq!(m.cofactor(0, 1), Ok(num(2.0)));
    assert_eq!(m.cofactor(0, 2), Ok(num(-3.0)));
    assert_eq!(m.cofactor(1, 0), Ok(num(4.0)));
    assert_eq!(m.cofactor(1, 1), Ok(num(-11.0)));
    assert_eq!(m.cofactor(1, 2), Ok(num(6.0)));
    assert_eq!(m.cofactor(2, 0), Ok(num(-3.0)));
    assert_eq!(m.cofactor(2, 1), Ok(num(6.0)));
    assert_eq!(m.cofactor(2, 2), Ok(num(-3.0)));
}

#[test]
fn cofactors_of_a_two_by_two_matrix() {
    let m = square([[1.0, 2.0], [3.0, 4.0]]);
    assert_eq!(m.cofactor(0, 0), Ok(num(4.0)));
    assert_eq!(m.cofactor(0, 1), Ok(num(-3.0)));
    assert_eq!(m.cofactor(1, 0), Ok(num(-2.0)));
    assert_eq!(m.cofactor(1, 1), Ok(num(1.0)));
}

#[test]
fn cofactor_of_a_single_entry_is_one() {
    let m = reals([[7.0]]);
    assert_eq!(m.cofactor(0, 0), Ok(num(1.0)));
}

#[test]
fn determinants_in_exact_arithmetic() {
    assert_eq!(reals([[7.0]]).determinant(), num(7.0));
    assert_eq!(reals([[1.0, 2.0], [3.0, 4.0]]).determinant(), num(-2.0));
    assert_eq!(reals([[4.0, 6.0], [2.0, 5.0]]).determinant(), num(8.0));
    assert_eq!(
        reals([[2.0, 0.0, 0.0], [0.0, 3.0, 0.0], [0.0, 0.0, 4.0]]).determinant(),
        num(24.0)
    );
    assert_eq!(
        square([
            [2.0, 1.0, 1.0, 0.0],
            [4.0, 3.0, 3.0, 1.0],
            [8.0, 7.0, 9.0, 5.0],
            [6.0, 7.0, 9.0, 8.0]
        ])
        .determinant(),
        num(8.0)
    );
}

#[test]
fn determinant_of_the_empty_matrix_is_one() {
    let m: [[Real; 0]; 0] = Matrix::new();
    assert_eq!(m.determinant(), num(1.0));
}

#[test]
fn determinant_twice_gives_the_same_bits() {
    let m = sample();
    let first = m.determinant();
    let second = m.determinant();
    assert_eq!(first.0.to_bits(), second.0.to_bits());
    let singular = reals([[0.0, 1.0], [1.0, 0.0]]);
    assert_eq!(
        singular.determinant().0.is_nan(),
        singular.determinant().0.is_nan()
    );
}

#[test]
fn both_backings_give_the_same_results() {
    let values = [[1.0, 2.0, 3.0], [4.0, 5.0, 6.0], [7.0, 8.0, 10.0]];
    let a = reals(values);
    let s = square(values);
    assert_eq!(a.determinant(), s.determinant());
    assert_eq!(a.trace(), s.trace());
    assert_eq!(a.cofactor(1, 1), s.cofactor(1, 1));
    let (al, au) = a.lu_decompose();
    let (sl, su) = s.lu_decompose();
    assert_eq!(al, sl.as_list());
    assert_eq!(au, su.as_list());
    assert_eq!(Matrix::to_string(&a), Matrix::to_string(&s));
}

#[test]
fn sample_factors() {
    let m = sample();
    let (l, u) = m.lu_decompose();
    assert_eq!(l, reals([[1.0, 0.0, 0.0], [4.0, 1.0, 0.0], [7.0, 2.0, 1.0]]));
    assert_eq!(u, reals([[1.0, 2.0, 3.0], [0.0, -3.0, -6.0], [0.0, 0.0, 1.0]]));
    assert_eq!(m, sample());
}

#[test]
fn four_by_four_factors() {
    let m = reals([
        [2.0, 1.0, 1.0, 0.0],
        [4.0, 3.0, 3.0, 1.0],
        [8.0, 7.0, 9.0, 5.0],
        [6.0, 7.0, 9.0, 8.0],
    ]);
    let (l, u) = m.lu_decompose();
    assert_eq!(
        l,
        reals([
            [1.0, 0.0, 0.0, 0.0],
            [2.0, 1.0, 0.0, 0.0],
            [4.0, 3.0, 1.0, 0.0],
            [3.0, 4.0, 1.0, 1.0]
        ])
    );
    assert_eq!(
        u,
        reals([
            [2.0, 1.0, 1.0, 0.0],
            [0.0, 1.0, 1.0, 1.0],
            [0.0, 0.0, 2.0, 2.0],
            [0.0, 0.0, 0.0, 2.0]
        ])
    );
}

#[test]
fn factors_are_triangular_where_elimination_is_exact() {
    let m = reals([[2.0, 1.0, 1.0], [4.0, 3.0, 3.0], [8.0, 7.0, 9.0]]);
    let (l, u) = m.lu_decompose();
    for i in 0..3 {
        assert_eq!(l[i][i], num(1.0));
        for j in 0..3 {
            if j > i {
                assert_eq!(l[i][j], num(0.0));
            }
            if j < i {
                assert_eq!(u[i][j], num(0.0));
            }
        }
    }
}

#[test]
fn lower_factor_is_unit_lower_even_where_rounding_leaves_a_residue() {
    let m = reals([[49.0, 0.0], [1.0, 0.0]]);
    let (l, u) = m.lu_decompose();
    assert_eq!(l[0][0], num(1.0));
    assert_eq!(l[1][1], num(1.0));
    assert_eq!(l[0][1], num(0.0));
    assert_eq!(l[1][0], num(1.0 / 49.0));
    assert_eq!(u[1][0], num(1.0 - (1.0 / 49.0) * 49.0));
    assert!(u[1][0] != num(0.0));
}

#[test]
fn factors_of_a_mutated_copy_leave_the_source_alone() {
    let m = square([[4.0, 6.0], [2.0, 5.0]]);
    let (mut l, mut u) = m.lu_decompose();
    assert_eq!(l.set(0, 1, num(9.0)), Ok(()));
    assert_eq!(u.set(1, 0, num(9.0)), Ok(()));
    assert_eq!(m.as_list(), reals([[4.0, 6.0], [2.0, 5.0]]));
}

#[test]
fn zero_over_zero_gives_a_zero_multiplier() {
    let zeros = reals([[0.0, 0.0], [0.0, 0.0]]);
    let (l, u) = zeros.lu_decompose();
    assert_eq!(l, reals([[1.0, 0.0], [0.0, 1.0]]));
    assert_eq!(u, reals([[0.0, 0.0], [0.0, 0.0]]));
    assert_eq!(zeros.determinant(), num(0.0));

    let m = reals([[0.0, 1.0], [0.0, 2.0]]);
    let (l, u) = m.lu_decompose();
    assert_eq!(l[1][0], num(0.0));
    assert_eq!(u, reals([[0.0, 1.0], [0.0, 2.0]]));
    let d = m.determinant();
    assert!(!d.0.is_nan());
    assert_eq!(d, num(0.0));
}

#[test]
fn a_zero_pivot_under_another_entry_is_not_recovered() {
    let m = reals([[0.0, 1.0], [1.0, 0.0]]);
    let (l, u) = m.lu_decompose();
    assert_eq!(l[1][0], num(f64::INFINITY));
    assert!(u[1][0].0.is_nan());
    assert_eq!(u[1][1], num(f64::NEG_INFINITY));
    assert!(m.determinant().0.is_nan());
}

#[test]
fn square_matrix_is_indexed_by_a_pair() {
    let s = square([[1.0, 2.0], [3.0, 4.0]]);
    assert_eq!(s[(0, 0)], num(1.0));
    assert_eq!(s[(0, 1)], num(2.0));
    assert_eq!(s[(1, 0)], num(3.0));
    assert_eq!(s[(1, 1)], num(4.0));
}

#[test]
fn square_matrix_clone_is_independent() {
    let s = square([[1.0, 2.0], [3.0, 4.0]]);
    let mut t = s.clone();
    assert_eq!(t.set(1, 1, num(0.0)), Ok(()));
    assert_eq!(s.as_list(), reals([[1.0, 2.0], [3.0, 4.0]]));
    assert_eq!(t.as_list(), reals([[1.0, 2.0], [3.0, 0.0]]));
}

fn times<const N: usize>(a: &[[Real; N]; N], b: &[[Real; N]; N]) -> [[Real; N]; N] {
    let mut p = [[num(0.0); N]; N];
    for i in 0..N {
        for c in 0..N {
            let mut dot = num(0.0);
            for k in 0..N {
                dot = dot.add(a[i][k].mul(b[k][c]));
            }
            p[i][c] = dot;
        }
    }
    p
}

#[test]
fn factors_multiply_back_where_arithmetic_is_exact() {
    let m = sample();
    let (l, u) = m.lu_decompose();
    assert_eq!(times(&l, &u), m);
    let m = reals([
        [2.0, 1.0, 1.0, 0.0],
        [4.0, 3.0, 3.0, 1.0],
        [8.0, 7.0, 9.0, 5.0],
        [6.0, 7.0, 9.0, 8.0],
    ]);
    let (l, u) = m.lu_decompose();
    assert_eq!(times(&l, &u), m);
}
