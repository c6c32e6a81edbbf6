//! Laws that relate several operations of the matrix model.

use vstd::prelude::*;
use vstd::std_specs::convert::FromSpec;
use vstd::std_specs::ops::AddSpec;
use vstd::std_specs::ops::MulSpec;
use core::ops::Add;
use core::ops::Mul;
use crate::algebra::one;
use crate::algebra::unit_exact;
use crate::algebra::zero;
use crate::grid::lemma_diagonal_at;
use crate::grid::lemma_transposed_at;
use crate::grid::Grid;
use crate::layout::lemma_offset_in_bounds;
use crate::layout::lemma_row_in_bounds;
use crate::layout::lemma_split_in_bounds;

verus! {

/// Transposing twice gives the grid back.
pub proof fn lemma_transpose_involution<T>(g: Grid<T>)
    requires
        g.wf(),
    ensures
        g.transposed().wf(),
        g.transposed().transposed() == g,
{
    let t = g.transposed();
    let tt = t.transposed();
    assert(g.cols * g.rows == g.rows * g.cols) by (nonlinear_arith);
    assert forall|k: int| 0 <= k < g.cells.len() implies tt.cells[k] == g.cells[k] by {
        lemma_split_in_bounds(g.rows, g.cols, k);
        lemma_transposed_at(g, k / (g.cols as int), k % (g.cols as int));
    }
    assert(tt.cells =~= g.cells);
}

/// Appending a row to an `r` by `c` grid gives an `r + 1` by `c` grid whose
/// first `r` rows are the rows of the grid it grew from, and whose last row is the
/// one appended.
pub proof fn lemma_with_row_keeps_rows<T>(g: Grid<T>, row: Seq<T>)
    requires
        g.wf(),
        row.len() == g.cols,
    ensures
        g.with_row(row).wf(),
        g.with_row(row).rows == g.rows + 1,
        g.with_row(row).cols == g.cols,
        forall|r: int| 0 <= r < g.rows ==> #[trigger] g.with_row(row).row(r) == g.row(r),
        g.with_row(row).row(g.rows as int) == row,
{
    let grown = g.with_row(row);
    assert((g.rows + 1) * g.cols == g.rows * g.cols + g.cols) by (nonlinear_arith);
    assert forall|r: int| 0 <= r < g.rows implies #[trigger] grown.row(r) == g.row(r) by {
        lemma_row_in_bounds(g.rows, g.cols, r);
        assert(grown.row(r) =~= g.row(r));
    }
    assert(grown.row(g.rows as int) =~= row);
}

/// Appending a column is the same as transposing, appending it as a row,
/// and transposing back.
pub proof fn lemma_with_col_by_transposition<T>(g: Grid<T>, col: Seq<T>)
    requires
        g.wf(),
        col.len() == g.rows,
    ensures
        g.with_col(col).wf(),
        g.transposed().with_row(col).transposed() == g.with_col(col),
{
    let t = g.transposed();
    let h = t.with_row(col);
    let back = h.transposed();
    let grown = g.with_col(col);
    let width = (g.cols + 1) as nat;
    assert(g.cols * g.rows == g.rows * g.cols) by (nonlinear_arith);
    assert((g.cols + 1) * g.rows == g.rows * (g.cols + 1)) by (nonlinear_arith);
    assert forall|k: int| 0 <= k < grown.cells.len() implies back.cells[k] == grown.cells[k] by {
        lemma_split_in_bounds(g.rows, width, k);
        let r = k / (width as int);
        let c = k % (width as int);
        assert(back.cells[k] == h.at(c, r));
        if c < g.cols {
            lemma_offset_in_bounds(g.cols, g.rows, c, r);
            lemma_transposed_at(g, r, c);
            assert(h.at(c, r) == t.at(c, r));
        } else {
            assert(c * g.rows == g.rows * g.cols) by (nonlinear_arith)
                requires
                    c == g.cols,
            ;
            assert(h.at(c, r) == col[r]);
        }
    }
    assert(back.cells =~= grown.cells);
}

/// The first `n` steps of the sum for cell `(i, j)` of the identity times
/// `a`: zero until the diagonal is passed, the cell of `a` from then on.
proof fn lemma_identity_left_partial<T: From<u8> + Add<Output = T> + Mul<Output = T>>(
    a: Grid<T>,
    i: int,
    j: int,
    n: nat,
)
    requires
        a.wf(),
        a.units_exact(),
        a.has(i, j),
        n <= a.rows,
    ensures
        Grid::<T>::identity(a.rows).dot_cell(a, i, j, n) == if n <= i {
            zero::<T>()
        } else {
            a.at(i, j)
        },
    decreases n,
{
    if n > 0 {
        let k = n - 1;
        lemma_identity_left_partial(a, i, j, k as nat);
        lemma_diagonal_at(Seq::new(a.rows, |x: int| one::<T>()), zero::<T>(), i, k);
        lemma_offset_in_bounds(a.rows, a.cols, k, j);
        lemma_offset_in_bounds(a.rows, a.cols, i, j);
        assert(unit_exact(a.at(k, j)));
        assert(unit_exact(a.at(i, j)));
    }
}

/// The first `n` steps of the sum for cell `(i, j)` of `a` times the
/// identity: zero until the diagonal is passed, the cell of `a` from then on.
proof fn lemma_identity_right_partial<T: From<u8> + Add<Output = T> + Mul<Output = T>>(
    a: Grid<T>,
    i: int,
    j: int,
    n: nat,
)
    requires
        a.wf(),
        a.units_exact(),
        a.has(i, j),
        n <= a.cols,
    ensures
        a.dot_cell(Grid::<T>::identity(a.cols), i, j, n) == if n <= j {
            zero::<T>()
        } else {
            a.at(i, j)
        },
    decreases n,
{
    if n > 0 {
        let k = n - 1;
        lemma_identity_right_partial(a, i, j, k as nat);
        lemma_diagonal_at(Seq::new(a.cols, |x: int| one::<T>()), zero::<T>(), k, j);
        lemma_offset_in_bounds(a.rows, a.cols, i, k);
        lemma_offset_in_bounds(a.rows, a.cols, i, j);
        assert(unit_exact(a.at(i, k)));
        assert(unit_exact(a.at(i, j)));
    }
}

/// The identity is neutral on the left: for an `m` by `n` grid `a` on whose
/// cells arithmetic with zero and one is exact, the `m` by `m` identity
/// times `a` is `a`.
pub proof fn lemma_identity_dot_left<T: From<u8> + Add<Output = T> + Mul<Output = T>>(a: Grid<T>)
    requires
        a.wf(),
        a.units_exact(),
    ensures
        Grid::<T>::identity(a.rows).dot(a) == a,
{
    let product = Grid::<T>::identity(a.rows).dot(a);
    assert forall|k: int| 0 <= k < a.cells.len() implies product.cells[k] == a.cells[k] by {
        lemma_split_in_bounds(a.rows, a.cols, k);
        lemma_identity_left_partial(a, k / (a.cols as int), k % (a.cols as int), a.rows);
    }
    assert(product.cells =~= a.cells);
}

/// The identity is neutral on the right: for an `m` by `n` grid `a` on whose
/// cells arithmetic with zero and one is exact, `a` times the `n` by `n`
/// identity is `a`.
pub proof fn lemma_identity_dot_right<T: From<u8> + Add<Output = T> + Mul<Output = T>>(a: Grid<T>)
    requires
        a.wf(),
        a.units_exact(),
    ensures
        a.dot(Grid::<T>::identity(a.cols)) == a,
{
    let product = a.dot(Grid::<T>::identity(a.cols));
    assert forall|k: int| 0 <= k < a.cells.len() implies product.cells[k] == a.cells[k] by {
        lemma_split_in_bounds(a.rows, a.cols, k);
        lemma_identity_right_partial(a, k / (a.cols as int), k % (a.cols as int), a.cols);
    }
    assert(product.cells =~= a.cells);
}

} // verus!
