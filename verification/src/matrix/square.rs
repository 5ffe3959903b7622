//! A square matrix as a type of its own.

use super::grid::{column, with_entry, zero_grid};
use super::scalar::{functional, Scalar};
use super::traits::{array_grid, Matrix, MatrixError};
use std::ops::Index;
use vstd::prelude::*;

verus! {

/// A square matrix of `N` rows and columns over `T`.
#[derive(Debug)]
pub struct SquareMatrix<const N: usize, T> {
    data: [[T; N]; N],
}

impl<const N: usize, T: Scalar> Clone for SquareMatrix<N, T> {
    fn clone(&self) -> (copy: Self)
        ensures
            copy == *self,
    {
        Self { data: self.data }
    }
}

impl<const N: usize, T: Scalar> vstd::std_specs::core::IndexSpecImpl<(usize, usize)> for SquareMatrix<N, T> {
    open spec fn index_req(&self, index: &(usize, usize)) -> bool {
        index.0 < N && index.1 < N
    }
}

/// `m[(r, c)]` is the entry at row `r`, column `c`, for an index in bounds.
impl<const N: usize, T: Scalar> Index<(usize, usize)> for SquareMatrix<N, T> {
    type Output = T;

    fn index(&self, index: (usize, usize)) -> (entry: &T)
        ensures
            *entry == self.grid()[index.0 as int][index.1 as int],
    {
        &self.data[index.0][index.1]
    }
}

impl<const N: usize, T: Scalar> Matrix<N, N> for SquareMatrix<N, T> {
    type Element = T;

    closed spec fn grid(&self) -> Seq<Seq<T>> {
        array_grid(self.data)
    }

    proof fn shape(&self) {
    }

    fn new() -> (m: Self) {
        let m = Self { data: [[T::zero(); N]; N] };
        assert(functional::<T>() ==> m.grid() =~~= zero_grid::<T>(N as nat, N as nat));
        m
    }

    fn get(&self, r: usize, c: usize) -> (res: Result<T, MatrixError>) {
        if r < N && c < N {
            Ok(self.data[r][c])
        } else {
            Err(MatrixError::OutOfBounds)
        }
    }

    fn set(&mut self, r: usize, c: usize, v: T) -> (res: Result<(), MatrixError>) {
        if r < N && c < N {
            self.data[r][c] = v;
            assert(self.grid() =~~= with_entry(old(self).grid(), r as int, c as int, v));
            Ok(())
        } else {
            Err(MatrixError::OutOfBounds)
        }
    }

    fn row(&self, r: usize) -> (res: Result<[T; N], MatrixError>) {
        if r < N {
            Ok(self.data[r])
        } else {
            Err(MatrixError::OutOfBounds)
        }
    }

    fn col(&self, c: usize) -> (res: Result<[T; N], MatrixError>) {
        if c < N {
            let mut col = [T::zero(); N];
            let mut i: usize = 0;
            while i < N
                invariant
                    i <= N,
                    c < N,
                    forall|k: int| 0 <= k < i ==> #[trigger] col@[k] == self.data@[k]@[c as int],
                decreases N - i,
            {
                col[i] = self.data[i][c];
                i += 1;
            }
            assert(col@ =~= column(self.grid(), c as int));
            Ok(col)
        } else {
            Err(MatrixError::OutOfBounds)
        }
    }
}

} // verus!
