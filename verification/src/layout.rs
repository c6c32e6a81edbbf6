//! Arithmetic of row-major offsets: the cell at `(r, c)` of a grid with `cols`
//! columns lives at flat offset `r * cols + c`.

use vstd::prelude::*;
use vstd::arithmetic::div_mod::lemma_fundamental_div_mod;
use vstd::arithmetic::div_mod::lemma_fundamental_div_mod_converse;
use vstd::arithmetic::div_mod::lemma_mod_bound;
use vstd::arithmetic::div_mod::lemma_div_pos_is_pos;
use vstd::arithmetic::div_mod::lemma_multiply_divide_lt;

verus! {

/// The flat offset of the cell at row `r`, column `c`, in a grid with `cols` columns.
pub open spec fn offset(cols: nat, r: int, c: int) -> int {
    r * cols + c
}

/// Every whole row of the grid lies inside the buffer.
pub proof fn lemma_row_in_bounds(rows: nat, cols: nat, r: int)
    requires
        0 <= r < rows,
    ensures
        0 <= r * cols,
        (r + 1) * cols == r * cols + cols,
        (r + 1) * cols <= rows * cols,
{
    assert(0 <= r * cols) by (nonlinear_arith)
        requires
            0 <= r,
            0 <= cols,
    ;
    assert((r + 1) * cols == r * cols + cols) by (nonlinear_arith);
    assert((r + 1) * cols <= rows * cols) by (nonlinear_arith)
        requires
            r + 1 <= rows,
            0 <= cols,
    ;
}

/// The offset of an in-range cell lies inside its row, and so inside the buffer.
pub proof fn lemma_offset_in_bounds(rows: nat, cols: nat, r: int, c: int)
    requires
        0 <= r < rows,
        0 <= c < cols,
    ensures
        0 <= r * cols <= offset(cols, r, c) < (r + 1) * cols <= rows * cols,
{
    lemma_row_in_bounds(rows, cols, r);
}

/// Row and column are recovered from an offset by division and remainder.
pub proof fn lemma_offset_split(cols: nat, r: int, c: int)
    requires
        0 <= c < cols,
    ensures
        offset(cols, r, c) / (cols as int) == r,
        offset(cols, r, c) % (cols as int) == c,
{
    lemma_fundamental_div_mod_converse(offset(cols, r, c), cols as int, r, c);
}

/// Every offset inside the buffer names exactly one in-range cell.
pub proof fn lemma_split_in_bounds(rows: nat, cols: nat, k: int)
    requires
        0 <= k < rows * cols,
    ensures
        cols > 0,
        rows > 0,
        0 <= k / (cols as int) < rows,
        0 <= k % (cols as int) < cols,
        offset(cols, k / (cols as int), k % (cols as int)) == k,
{
    assert(cols > 0 && rows > 0) by (nonlinear_arith)
        requires
            0 <= k < rows * cols,
    ;
    let d = cols as int;
    lemma_fundamental_div_mod(k, d);
    lemma_mod_bound(k, d);
    lemma_div_pos_is_pos(k, d);
    assert(k < d * rows) by (nonlinear_arith)
        requires
            k < rows * cols,
            d == cols,
    ;
    lemma_multiply_divide_lt(k, d, rows as int);
    assert((k / d) * cols == d * (k / d)) by (nonlinear_arith)
        requires
            d == cols,
    ;
}

} // verus!
