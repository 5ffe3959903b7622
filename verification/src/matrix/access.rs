//! Access to a matrix at indices that are known to be in bounds.

use super::grid::{has_shape, with_entry};
use super::traits::Matrix;
use vstd::pervasive::unreached;
use vstd::prelude::*;

verus! {

/// The entry of `m` at row `r`, column `c`.
pub(crate) fn entry<const R: usize, const C: usize, M: Matrix<R, C>>(
    m: &M,
    r: usize,
    c: usize,
) -> (v: M::Element)
    requires
        r < R,
        c < C,
    ensures
        v == m.grid()[r as int][c as int],
{
    match m.get(r, c) {
        Ok(v) => v,
        Err(_) => unreached(),
    }
}

/// Replaces the entry of `m` at row `r`, column `c` by `v`.
pub(crate) fn store<const R: usize, const C: usize, M: Matrix<R, C>>(
    m: &mut M,
    r: usize,
    c: usize,
    v: M::Element,
)
    requires
        r < R,
        c < C,
    ensures
        final(m).grid() == with_entry(old(m).grid(), r as int, c as int, v),
{
    match m.set(r, c, v) {
        Ok(()) => {},
        Err(_) => unreached(),
    }
}

/// A matrix with the contents of `m`.
pub(crate) fn duplicate<const R: usize, const C: usize, M: Matrix<R, C>>(m: &M) -> (copy: M)
    ensures
        copy.grid() == m.grid(),
{
    let mut copy = M::new();
    proof {
        copy.shape();
        m.shape();
    }
    let mut r: usize = 0;
    while r < R
        invariant
            r <= R,
            has_shape(m.grid(), R as nat, C as nat),
            has_shape(copy.grid(), R as nat, C as nat),
            forall|i: int| 0 <= i < r ==> (#[trigger] copy.grid()[i]) == m.grid()[i],
        decreases R - r,
    {
        let mut c: usize = 0;
        while c < C
            invariant
                r < R,
                c <= C,
                has_shape(m.grid(), R as nat, C as nat),
                has_shape(copy.grid(), R as nat, C as nat),
                forall|i: int| 0 <= i < r ==> (#[trigger] copy.grid()[i]) == m.grid()[i],
                forall|k: int|
                    0 <= k < c ==> (#[trigger] copy.grid()[r as int][k]) == m.grid()[r as int][k],
            decreases C - c,
        {
            store(&mut copy, r, c, entry(m, r, c));
            proof {
                copy.shape();
            }
            c += 1;
        }
        assert(copy.grid()[r as int] =~= m.grid()[r as int]);
        r += 1;
    }
    assert(copy.grid() =~= m.grid());
    copy
}

} // verus!
