//! Fixed-size matrices over floating-point-like elements.

mod access;
mod elimination;
pub mod grid;
pub mod laws;
pub mod render;
pub mod scalar;
pub mod square;
pub mod traits;

pub use self::scalar::Scalar;
pub use self::square::SquareMatrix;
pub use self::traits::{
    Cofactor, Determinable, Identity, LUDecomposable, Matrix, MatrixError, Traceable,
    Transposable,
};

use self::grid::{column, with_entry, zero_grid};
use self::scalar::functional;
use self::traits::array_grid;
use vstd::prelude::*;

verus! {

/// A nested array is a matrix: item `r` of the array is row `r`.
impl<const R: usize, const C: usize, T: Scalar> Matrix<R, C> for [[T; C]; R] {
    type Element = T;

    open spec fn grid(&self) -> Seq<Seq<T>> {
        array_grid(*self)
    }

    proof fn shape(&self) {
    }

    fn new() -> (m: Self) {
        let m = [[T::zero(); C]; R];
        assert(functional::<T>() ==> array_grid(m) =~~= zero_grid::<T>(R as nat, C as nat));
        m
    }

    fn get(&self, r: usize, c: usize) -> (res: Result<T, MatrixError>) {
        if r < R && c < C {
            Ok(self[r][c])
        } else {
            Err(MatrixError::OutOfBounds)
        }
    }

    fn set(&mut self, r: usize, c: usize, v: T) -> (res: Result<(), MatrixError>) {
        if r < R && c < C {
            self[r][c] = v;
            assert(array_grid(*self) =~~= with_entry(
                array_grid(*old(self)),
                r as int,
                c as int,
                v,
            ));
            Ok(())
        } else {
            Err(MatrixError::OutOfBounds)
        }
    }

    fn row(&self, r: usize) -> (res: Result<[T; C], MatrixError>) {
        if r < R {
            Ok(self[r])
        } else {
            Err(MatrixError::OutOfBounds)
        }
    }

    fn col(&self, c: usize) -> (res: Result<[T; R], MatrixError>) {
        if c < C {
            let mut col = [T::zero(); R];
            let mut i: usize = 0;
            while i < R
                invariant
                    i <= R,
                    c < C,
                    forall|k: int| 0 <= k < i ==> #[trigger] col@[k] == self@[k]@[c as int],
                decreases R - i,
            {
                col[i] = self[i][c];
                i += 1;
            }
            assert(col@ =~= column(array_grid(*self), c as int));
            Ok(col)
        } else {
            Err(MatrixError::OutOfBounds)
        }
    }
}

} // verus!
