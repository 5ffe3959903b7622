use std::fmt::{Debug, Display};

use mathkit::matrix::render::{pad_left, CELL_WIDTH};
use mathkit::matrix::{Cofactor, Determinable, Matrix, Scalar, SquareMatrix, Traceable};
use num_traits::Float;

#[derive(Clone, Copy, Debug, PartialEq)]
struct Number<T>(T);

impl<T: Float + Debug + Display> Scalar for Number<T> {
    fn zero() -> Self {
        Number(T::zero())
    }

    fn one() -> Self {
        Number(T::one())
    }

    fn add(self, rhs: Self) -> Self {
        Number(self.0 + rhs.0)
    }

    fn sub(self, rhs: Self) -> Self {
        Number(self.0 - rhs.0)
    }

    fn mul(self, rhs: Self) -> Self {
        Number(self.0 * rhs.0)
    }

    fn div(self, rhs: Self) -> Self {
        Number(self.0 / rhs.0)
    }

    fn neg(self) -> Self {
        Number(-self.0)
    }

    fn is_nan(self) -> bool {
        self.0.is_nan()
    }

    fn signum(self) -> Self {
        Number(self.0.signum())
    }

    fn to_text(self) -> String {
        format!("{:.2}", self.0)
    }
}

type Single = Number<f32>;

fn single(value: f32) -> Single {
    Number(value)
}

#[test]
fn cell_width_is_eight() {
    assert_eq!(CELL_WIDTH, 8);
}

#[test]
fn pad_left_fills_with_spaces_in_front() {
    assert_eq!(pad_left("1.00", 8), "    1.00");
    assert_eq!(pad_left("-3.00", 8), "   -3.00");
    assert_eq!(pad_left("", 3), "   ");
    assert_eq!(pad_left("ab", 3), " ab");
}

#[test]
fn pad_left_keeps_text_that_is_long_enough() {
    assert_eq!(pad_left("12345678", 8), "12345678");
    assert_eq!(pad_left("123456.79", 8), "123456.79");
    assert_eq!(pad_left("abc", 0), "abc");
}

#[test]
fn pad_left_counts_characters() {
    assert_eq!(pad_left("\u{e9}t\u{e9}", 5), "  \u{e9}t\u{e9}");
}

#[test]
fn text_of_the_sample() {
    let m = [
        [single(1.0), single(2.0), single(3.0)],
        [single(4.0), single(5.0), single(6.0)],
        [single(7.0), single(8.0), single(10.0)],
    ];
    assert_eq!(
        Matrix::to_string(&m),
        "    1.00    2.00    3.00\n    4.00    5.00    6.00\n    7.00    8.00   10.00\n"
    );
}

#[test]
fn text_rounds_to_two_digits_and_never_cuts() {
    let m = [
        [single(-3.0), single(0.125)],
        [single(123456.75), single(f32::NAN)],
        [single(f32::INFINITY), single(-0.5)],
    ];
    assert_eq!(
        Matrix::to_string(&m),
        "   -3.00    0.12\n123456.75     NaN\n     inf   -0.50\n"
    );
}

#[test]
fn text_of_a_matrix_without_columns_is_one_line_feed_per_row() {
    let m: [[Single; 0]; 2] = Matrix::new();
    assert_eq!(Matrix::to_string(&m), "\n\n");
    let e: [[Single; 3]; 0] = Matrix::new();
    assert_eq!(Matrix::to_string(&e), "");
}

#[test]
fn text_of_a_square_matrix() {
    let mut s: SquareMatrix<2, Single> = Matrix::new();
    assert_eq!(s.set(0, 0, single(1.5)), Ok(()));
    assert_eq!(s.set(1, 1, single(-2.25)), Ok(()));
    assert_eq!(Matrix::to_string(&s), "    1.50    0.00\n    0.00   -2.25\n");
}

#[test]
fn singles_are_elements_too() {
    let m = [[single(4.0), single(6.0)], [single(2.0), single(5.0)]];
    assert_eq!(m.determinant(), single(8.0));
    assert_eq!(m.trace(), single(9.0));
    assert_eq!(m.cofactor(0, 1), Ok(single(-2.0)));
}
