//! Operations that change the shape of a matrix: transposition and growth by
//! one row or one column.
//!
//! The buffer is row-major, so a row is appended at its end, while a column
//! (like a transposition) asks for the whole buffer to be laid out anew.

use vstd::prelude::*;
use crate::error::MatrixError;
use crate::layout::lemma_offset_in_bounds;
use crate::layout::lemma_offset_split;
use crate::layout::lemma_row_in_bounds;
use crate::matrix::extend_from;
use crate::matrix::Matrix;

verus! {

impl<T: Copy> Matrix<T> {
    /// Transposes the matrix in place: rows become columns.
    ///
    /// The buffer is rebuilt column by column.
    pub fn transpose(&mut self)
        requires
            old(self).wf(),
        ensures
            final(self).wf(),
            final(self)@ == old(self)@.transposed(),
    {
        let rows: usize = self.rows;
        let cols: usize = self.cols;
        let mut cells: Vec<T> = Vec::new();
        let mut j: usize = 0;
        while j < cols
            invariant
                *self == *old(self),
                self.wf(),
                rows == self@.rows,
                cols == self@.cols,
                j <= cols,
                cells@.len() == j * rows,
                forall|x: int|
                    0 <= x < cells@.len() ==> cells@[x] == self@.at(
                        x % (rows as int),
                        x / (rows as int),
                    ),
            decreases cols - j,
        {
            let mut i: usize = 0;
            while i < rows
                invariant
                    *self == *old(self),
                    self.wf(),
                    rows == self@.rows,
                    cols == self@.cols,
                    j < cols,
                    i <= rows,
                    cells@.len() == j * rows + i,
                    forall|x: int|
                        0 <= x < cells@.len() ==> cells@[x] == self@.at(
                            x % (rows as int),
                            x / (rows as int),
                        ),
                decreases rows - i,
            {
                proof {
                    lemma_offset_split(rows as nat, j as int, i as int);
                }
                cells.push(self.cell(i, j));
                i += 1;
            }
            proof {
                lemma_row_in_bounds(cols as nat, rows as nat, j as int);
            }
            j += 1;
        }
        proof {
            assert(cols * rows == rows * cols) by (nonlinear_arith);
            assert(cells@ =~= old(self)@.transposed().cells);
        }
        self.rows = cols;
        self.cols = rows;
        self.array = cells;
    }

    /// The transposed matrix; `self` is left as it is.
    pub fn t(&self) -> (m: Self)
        requires
            self.wf(),
        ensures
            m.wf(),
            m@ == self@.transposed(),
    {
        let mut m = self.clone();
        m.transpose();
        m
    }

    /// Appends `row` below the last row.
    ///
    /// Fails with [`MatrixError::ShapeMismatch`], leaving the matrix as it is,
    /// exactly when `row` does not hold one element for each column.
    pub fn append_row(&mut self, row: &[T]) -> (r: Result<(), MatrixError>)
        requires
            old(self).wf(),
            old(self)@.rows < usize::MAX,
        ensures
            row@.len() == old(self)@.cols <==> r is Ok,
            r is Ok ==> final(self).wf() && final(self)@ == old(self)@.with_row(row@),
            r matches Err(e) ==> e == MatrixError::ShapeMismatch && *final(self) == *old(self),
    {
        if row.len() != self.cols {
            return Err(MatrixError::ShapeMismatch);
        }
        extend_from(&mut self.array, row);
        self.rows += 1;
        proof {
            lemma_row_in_bounds(self@.rows, self@.cols, old(self)@.rows as int);
        }
        Ok(())
    }

    /// Appends `col` to the right of the last column.
    ///
    /// Every row moves, so the buffer is rebuilt. Fails with
    /// [`MatrixError::ShapeMismatch`], leaving the matrix as it is, exactly
    /// when `col` does not hold one element for each row.
    pub fn append_col(&mut self, col: &[T]) -> (r: Result<(), MatrixError>)
        requires
            old(self).wf(),
            old(self)@.cols < usize::MAX,
        ensures
            col@.len() == old(self)@.rows <==> r is Ok,
            r is Ok ==> final(self).wf() && final(self)@ == old(self)@.with_col(col@),
            r matches Err(e) ==> e == MatrixError::ShapeMismatch && *final(self) == *old(self),
    {
        if col.len() != self.rows {
            return Err(MatrixError::ShapeMismatch);
        }
        let rows: usize = self.rows;
        let new_cols: usize = self.cols + 1;
        let ghost width: int = new_cols as int;
        let ghost grown = old(self)@.with_col(col@);
        let mut cells: Vec<T> = Vec::new();
        let mut i: usize = 0;
        while i < rows
            invariant
                *self == *old(self),
                self.wf(),
                rows == self@.rows,
                col@.len() == rows,
                width == self@.cols + 1,
                grown == self@.with_col(col@),
                i <= rows,
                cells@.len() == i * width,
                forall|x: int| 0 <= x < cells@.len() ==> cells@[x] == grown.cells[x],
            decreases rows - i,
        {
            let ghost before = cells@;
            let old_row = self.row_slice(i);
            extend_from(&mut cells, old_row);
            cells.push(col[i]);
            proof {
                lemma_row_in_bounds(rows as nat, width as nat, i as int);
                assert(cells@.len() == (i + 1) * width);
                assert forall|x: int| 0 <= x < cells@.len() implies cells@[x] == grown.cells[x] by {
                    if x >= before.len() {
                        let c = x - i * width;
                        lemma_offset_split(width as nat, i as int, c);
                        if c < self@.cols {
                            lemma_offset_in_bounds(self@.rows, self@.cols, i as int, c);
                            assert(cells@[x] == old_row@[c]);
                        }
                    }
                }
            }
            i += 1;
        }
        proof {
            assert(rows * width == rows * (self@.cols + 1)) by (nonlinear_arith)
                requires
                    width == self@.cols + 1,
            ;
            assert(cells@ =~= grown.cells);
        }
        self.cols = new_cols;
        self.array = cells;
        Ok(())
    }
}

} // verus!
