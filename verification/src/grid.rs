//! The mathematical model of a matrix: two extents and a flat, row-major
//! sequence of cells.

use vstd::prelude::*;
use crate::layout::offset;
use crate::layout::lemma_offset_in_bounds;
use crate::layout::lemma_offset_split;

verus! {

/// What a matrix is, as a value of mathematics.
pub struct Grid<T> {
    pub rows: nat,
    pub cols: nat,
    pub cells: Seq<T>,
}

impl<T> Grid<T> {
    /// The buffer holds exactly `rows * cols` cells.
    pub open spec fn wf(self) -> bool {
        self.cells.len() == self.rows * self.cols
    }

    /// Whether the two grids have the same number of rows and of columns.
    pub open spec fn same_shape(self, other: Grid<T>) -> bool {
        self.rows == other.rows && self.cols == other.cols
    }

    /// Whether `(r, c)` names a cell of the grid.
    pub open spec fn has(self, r: int, c: int) -> bool {
        0 <= r < self.rows && 0 <= c < self.cols
    }

    /// The cell at row `r`, column `c`.
    pub open spec fn at(self, r: int, c: int) -> T {
        self.cells[offset(self.cols, r, c)]
    }

    /// Row `r`: a contiguous segment of the buffer.
    pub open spec fn row(self, r: int) -> Seq<T> {
        self.cells.subrange(r * self.cols, (r + 1) * self.cols)
    }

    /// Column `c`: one cell out of every row, top to bottom.
    pub open spec fn col(self, c: int) -> Seq<T> {
        Seq::new(self.rows, |r: int| self.at(r, c))
    }

    /// A grid of the given extents with `value` in every cell.
    pub open spec fn filled(rows: nat, cols: nat, value: T) -> Grid<T> {
        Grid { rows, cols, cells: Seq::new(rows * cols, |k: int| value) }
    }

    /// The square grid with `values` on its main diagonal and `zero` elsewhere.
    pub open spec fn diagonal(values: Seq<T>, zero: T) -> Grid<T> {
        let n = values.len();
        Grid {
            rows: n,
            cols: n,
            cells: Seq::new(
                n * n,
                |k: int|
                    if k / (n as int) == k % (n as int) {
                        values[k / (n as int)]
                    } else {
                        zero
                    },
            ),
        }
    }

    /// The `n` by `n` grid with `one` on its main diagonal and `zero` elsewhere.
    pub open spec fn unit_diagonal(n: nat, one: T, zero: T) -> Grid<T> {
        Grid::diagonal(Seq::new(n, |i: int| one), zero)
    }

    /// The same grid with the cell at `(r, c)` replaced by `value`.
    pub open spec fn with_cell(self, r: int, c: int, value: T) -> Grid<T> {
        Grid { rows: self.rows, cols: self.cols, cells: self.cells.update(offset(self.cols, r, c), value) }
    }

    /// The same grid with row `r` replaced by `values`.
    pub open spec fn with_row_replaced(self, r: int, values: Seq<T>) -> Grid<T> {
        Grid {
            rows: self.rows,
            cols: self.cols,
            cells: self.cells.subrange(0, r * self.cols) + values + self.cells.subrange(
                (r + 1) * self.cols,
                self.cells.len() as int,
            ),
        }
    }

    /// The transposed grid: its cell `(c, r)` is this grid's cell `(r, c)`.
    pub open spec fn transposed(self) -> Grid<T> {
        Grid {
            rows: self.cols,
            cols: self.rows,
            cells: Seq::new(
                self.rows * self.cols,
                |k: int| self.at(k % (self.rows as int), k / (self.rows as int)),
            ),
        }
    }

    /// The grid with `row` added below the last row.
    pub open spec fn with_row(self, row: Seq<T>) -> Grid<T> {
        Grid { rows: self.rows + 1, cols: self.cols, cells: self.cells + row }
    }

    /// The grid with `col` added to the right of the last column.
    pub open spec fn with_col(self, col: Seq<T>) -> Grid<T> {
        let width: int = self.cols as int + 1;
        Grid {
            rows: self.rows,
            cols: (self.cols + 1) as nat,
            cells: Seq::new(
                self.rows * (self.cols + 1),
                |k: int|
                    if k % width == self.cols {
                        col[k / width]
                    } else {
                        self.at(k / width, k % width)
                    },
            ),
        }
    }
}

/// The transposed grid is well formed, and its cell `(c, r)` is the cell
/// `(r, c)` of the grid it was made from.
pub proof fn lemma_transposed_at<T>(g: Grid<T>, r: int, c: int)
    requires
        g.wf(),
        g.has(r, c),
    ensures
        g.transposed().wf(),
        g.transposed().has(c, r),
        g.transposed().at(c, r) == g.at(r, c),
{
    lemma_offset_in_bounds(g.cols, g.rows, c, r);
    lemma_offset_split(g.rows, c, r);
    assert(g.cols * g.rows == g.rows * g.cols) by (nonlinear_arith);
}

/// In the diagonal grid, the cell `(i, j)` is `values[i]` where `i == j`,
/// and `zero` elsewhere.
pub proof fn lemma_diagonal_at<T>(values: Seq<T>, zero: T, i: int, j: int)
    requires
        0 <= i < values.len(),
        0 <= j < values.len(),
    ensures
        Grid::diagonal(values, zero).wf(),
        Grid::diagonal(values, zero).at(i, j) == if i == j {
            values[i]
        } else {
            zero
        },
{
    lemma_offset_in_bounds(values.len(), values.len(), i, j);
    lemma_offset_split(values.len(), i, j);
}

/// In the grid grown by a column, the cells of the last column are those of
/// `col`, and all others are where they were.
pub proof fn lemma_with_col_at<T>(g: Grid<T>, col: Seq<T>, r: int, c: int)
    requires
        g.wf(),
        col.len() == g.rows,
        0 <= r < g.rows,
        0 <= c <= g.cols,
    ensures
        g.with_col(col).wf(),
        g.with_col(col).at(r, c) == if c == g.cols {
            col[r]
        } else {
            g.at(r, c)
        },
{
    let width = (g.cols + 1) as nat;
    lemma_offset_in_bounds(g.rows, width, r, c);
    lemma_offset_split(width, r, c);
}

} // verus!
