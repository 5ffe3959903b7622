//! The text form of a matrix: one line per row, every entry right-aligned
//! in a cell of fixed width.

use super::scalar::{text, Scalar};
use vstd::prelude::*;
use vstd::string::{StrSliceExecFns, StringExecFns};

verus! {

/// The width of a cell, in characters.
pub const CELL_WIDTH: usize = 8;

/// `t` with as many spaces in front as bring it to `width` characters; `t`
/// itself where it is that long already.
pub open spec fn padded(t: Seq<char>, width: nat) -> Seq<char> {
    if t.len() >= width {
        t
    } else {
        Seq::new((width - t.len()) as nat, |i: int| ' ') + t
    }
}

/// The cell that shows the entry `v`.
pub open spec fn cell<E: Scalar>(v: E) -> Seq<char> {
    padded(text(v), CELL_WIDTH as nat)
}

/// The cells of the first `n` entries of `row`, one after the other.
pub open spec fn cells<E: Scalar>(row: Seq<E>, n: nat) -> Seq<char>
    decreases n,
{
    if n == 0 {
        Seq::empty()
    } else {
        cells(row, (n - 1) as nat) + cell(row[n - 1])
    }
}

/// The line that shows `row`: its cells and a line feed.
pub open spec fn line<E: Scalar>(row: Seq<E>) -> Seq<char> {
    cells(row, row.len()).push('\n')
}

/// The lines of the first `n` rows of `g`, one after the other.
pub open spec fn lines<E: Scalar>(g: Seq<Seq<E>>, n: nat) -> Seq<char>
    decreases n,
{
    if n == 0 {
        Seq::empty()
    } else {
        lines(g, (n - 1) as nat) + line(g[n - 1])
    }
}

/// The text form of the grid `g`.
pub open spec fn rendering<E: Scalar>(g: Seq<Seq<E>>) -> Seq<char> {
    lines(g, g.len())
}

/// `t`, right-aligned in `width` characters.
pub fn pad_left(t: &str, width: usize) -> (p: String)
    ensures
        p@ == padded(t@, width as nat),
{
    let len = t.unicode_len();
    let mut p = String::new();
    let mut i: usize = len;
    while i < width
        invariant
            len == t@.len(),
            len <= i,
            i <= width || i == len,
            p@ == Seq::new((i - len) as nat, |k: int| ' '),
        decreases width - i,
    {
        proof {
            reveal_strlit(" ");
        }
        p.append(" ");
        assert(p@ =~= Seq::new((i + 1 - len) as nat, |k: int| ' '));
        i += 1;
    }
    p.append(t);
    assert(p@ =~= padded(t@, width as nat));
    p
}

} // verus!
