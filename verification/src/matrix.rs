//! The executable matrix and its accessors and constructors.

use vstd::prelude::*;
use crate::error::MatrixError;
use crate::grid::Grid;
use crate::layout::lemma_offset_in_bounds;
use crate::layout::lemma_row_in_bounds;

verus! {

/// A two-dimensional matrix, stored row by row in one contiguous buffer.
#[derive(Debug, PartialEq)]
pub struct Matrix<T> {
    pub(crate) cols: usize,
    pub(crate) rows: usize,
    pub(crate) array: Vec<T>,
}

impl<T> View for Matrix<T> {
    type V = Grid<T>;

    open(crate) spec fn view(&self) -> Grid<T> {
        Grid { rows: self.rows as nat, cols: self.cols as nat, cells: self.array@ }
    }
}

impl<T> Matrix<T> {
    /// The representation invariant: the buffer holds `rows * cols` elements.
    pub open spec fn wf(&self) -> bool {
        self@.wf()
    }

    /// The number of columns.
    pub fn cols(&self) -> (n: usize)
        ensures
            n == self@.cols,
    {
        self.cols
    }

    /// The number of rows.
    pub fn rows(&self) -> (n: usize)
        ensures
            n == self@.rows,
    {
        self.rows
    }

    /// The shape, as the pair `(rows, cols)`.
    pub fn shape(&self) -> (s: (usize, usize))
        ensures
            s.0 == self@.rows,
            s.1 == self@.cols,
    {
        (self.rows, self.cols)
    }

    /// The whole buffer, row by row.
    pub fn array(&self) -> (cells: &[T])
        requires
            self.wf(),
        ensures
            cells@ == self@.cells,
            cells@.len() == self@.rows * self@.cols,
    {
        self.array.as_slice()
    }
}

/// Appends a copy of every element of `src` to `dst`, in order.
pub(crate) fn extend_from<T: Copy>(dst: &mut Vec<T>, src: &[T])
    ensures
        final(dst)@ == old(dst)@ + src@,
{
    let mut i: usize = 0;
    while i < src.len()
        invariant
            i <= src@.len(),
            dst@ == old(dst)@ + src@.subrange(0, i as int),
        decreases src@.len() - i,
    {
        dst.push(src[i]);
        i += 1;
        assert(dst@ =~= old(dst)@ + src@.subrange(0, i as int));
    }
    assert(src@.subrange(0, i as int) =~= src@);
}

impl<T: Copy> Clone for Matrix<T> {
    /// A matrix with the same shape and cells, in a buffer of its own.
    fn clone(&self) -> (m: Self)
        ensures
            m@ == self@,
    {
        let mut cells: Vec<T> = Vec::new();
        extend_from(&mut cells, self.array.as_slice());
        assert(cells@ =~= self.array@);
        Matrix { cols: self.cols, rows: self.rows, array: cells }
    }
}

impl<T: Copy> Matrix<T> {
    /// Builds a matrix from its cells, given row by row.
    ///
    /// Fails with [`MatrixError::InvalidShape`] exactly when `array` does not
    /// hold `rows * cols` elements.
    pub fn new(rows: usize, cols: usize, array: &[T]) -> (r: Result<Self, MatrixError>)
        ensures
            array@.len() == rows * cols <==> r is Ok,
            r matches Ok(m) ==> m.wf() && m@ == (Grid { rows: rows as nat, cols: cols as nat, cells: array@ }),
            r matches Err(e) ==> e == MatrixError::InvalidShape,
    {
        match rows.checked_mul(cols) {
            Some(n) => {
                if n != array.len() {
                    return Err(MatrixError::InvalidShape);
                }
            },
            None => {
                assert(array@.len() == array.len());
                return Err(MatrixError::InvalidShape);
            },
        }
        let mut cells: Vec<T> = Vec::new();
        extend_from(&mut cells, array);
        assert(cells@ =~= array@);
        Ok(Matrix { cols, rows, array: cells })
    }

    /// Builds a `rows` by `cols` matrix with `value` in every cell.
    pub fn with_value(rows: usize, cols: usize, value: T) -> (m: Self)
        ensures
            m.wf(),
            m@ == Grid::filled(rows as nat, cols as nat, value),
    {
        let mut cells: Vec<T> = Vec::new();
        let mut i: usize = 0;
        while i < rows
            invariant
                i <= rows,
                cells@.len() == i * cols,
                forall|k: int| 0 <= k < cells@.len() ==> cells@[k] == value,
            decreases rows - i,
        {
            let mut j: usize = 0;
            while j < cols
                invariant
                    i < rows,
                    j <= cols,
                    cells@.len() == i * cols + j,
                    forall|k: int| 0 <= k < cells@.len() ==> cells@[k] == value,
                decreases cols - j,
            {
                cells.push(value);
                j += 1;
            }
            i += 1;
            assert(i * cols == (i - 1) * cols + cols) by (nonlinear_arith);
        }
        assert(cells@ =~= Grid::filled(rows as nat, cols as nat, value).cells);
        Matrix { cols, rows, array: cells }
    }

    /// The cell at row `r`, column `c`, which the caller knows to exist.
    pub(crate) fn cell(&self, r: usize, c: usize) -> (v: T)
        requires
            self.wf(),
            self@.has(r as int, c as int),
        ensures
            v == self@.at(r as int, c as int),
    {
        proof {
            lemma_offset_in_bounds(self@.rows, self@.cols, r as int, c as int);
            assert(self.array@.len() == self.array.len());
        }
        self.array[r * self.cols + c]
    }

    /// Replaces the cell at row `r`, column `c`, which the caller knows to exist.
    pub(crate) fn set_cell(&mut self, r: usize, c: usize, value: T)
        requires
            old(self).wf(),
            old(self)@.has(r as int, c as int),
        ensures
            final(self).wf(),
            final(self)@ == old(self)@.with_cell(r as int, c as int, value),
    {
        proof {
            lemma_offset_in_bounds(self@.rows, self@.cols, r as int, c as int);
            assert(self.array@.len() == self.array.len());
        }
        self.array[r * self.cols + c] = value;
    }

    /// Row `index`, which the caller knows to exist.
    pub(crate) fn row_slice(&self, index: usize) -> (cells: &[T])
        requires
            self.wf(),
            index < self@.rows,
        ensures
            cells@ == self@.row(index as int),
            cells@.len() == self@.cols,
    {
        proof {
            lemma_row_in_bounds(self@.rows, self@.cols, index as int);
            assert(self.array@.len() == self.array.len());
        }
        let start: usize = index * self.cols;
        let end: usize = start + self.cols;
        vstd::slice::slice_subrange(self.array.as_slice(), start, end)
    }

    /// Row `index`, as a view into the buffer.
    ///
    /// Fails with [`MatrixError::OutOfBounds`] exactly when there is no such row.
    pub fn row(&self, index: usize) -> (r: Result<&[T], MatrixError>)
        requires
            self.wf(),
        ensures
            index < self@.rows <==> r is Ok,
            r matches Ok(cells) ==> cells@ == self@.row(index as int) && cells@.len() == self@.cols,
            r matches Err(e) ==> e == MatrixError::OutOfBounds,
    {
        if index >= self.rows {
            return Err(MatrixError::OutOfBounds);
        }
        Ok(self.row_slice(index))
    }

    /// Column `index`, gathered into a new vector.
    ///
    /// Fails with [`MatrixError::OutOfBounds`] exactly when there is no such column.
    pub fn col(&self, index: usize) -> (r: Result<Vec<T>, MatrixError>)
        requires
            self.wf(),
        ensures
            index < self@.cols <==> r is Ok,
            r matches Ok(cells) ==> cells@ == self@.col(index as int),
            r matches Err(e) ==> e == MatrixError::OutOfBounds,
    {
        if index >= self.cols {
            return Err(MatrixError::OutOfBounds);
        }
        let mut col: Vec<T> = Vec::new();
        let mut i: usize = 0;
        while i < self.rows
            invariant
                self.wf(),
                index < self.cols,
                i <= self.rows,
                col@.len() == i,
                forall|k: int| 0 <= k < i ==> col@[k] == self@.at(k, index as int),
            decreases self.rows - i,
        {
            col.push(self.cell(i, index));
            i += 1;
        }
        assert(col@ =~= self@.col(index as int));
        Ok(col)
    }

    /// The cell at `index`, given as `(row, col)`.
    ///
    /// Fails with [`MatrixError::OutOfBounds`] exactly when there is no such cell.
    pub fn index(&self, index: (usize, usize)) -> (r: Result<&T, MatrixError>)
        requires
            self.wf(),
        ensures
            self@.has(index.0 as int, index.1 as int) <==> r is Ok,
            r matches Ok(v) ==> *v == self@.at(index.0 as int, index.1 as int),
            r matches Err(e) ==> e == MatrixError::OutOfBounds,
    {
        let (row, col) = index;
        match self.row(row) {
            Ok(cells) => {
                if col < cells.len() {
                    proof {
                        lemma_offset_in_bounds(self@.rows, self@.cols, row as int, col as int);
                    }
                    Ok(&cells[col])
                } else {
                    Err(MatrixError::OutOfBounds)
                }
            },
            Err(e) => Err(e),
        }
    }

    /// Row `index`, as a view into the buffer through which its cells can be
    /// written.
    ///
    /// Fails with [`MatrixError::OutOfBounds`], leaving the matrix as it is,
    /// exactly when there is no such row. Otherwise the matrix ends up with
    /// what the caller leaves in the row, and all other rows as they were.
    pub fn row_mut(&mut self, index: usize) -> (r: Result<&mut [T], MatrixError>)
        requires
            old(self).wf(),
        ensures
            index < old(self)@.rows <==> r is Ok,
            r matches Ok(cells) ==> {
                &&& cells@ == old(self)@.row(index as int)
                &&& cells@.len() == old(self)@.cols
                &&& final(self)@ == old(self)@.with_row_replaced(index as int, final(cells)@)
                &&& final(cells)@.len() == cells@.len() ==> final(self).wf()
            },
            r matches Err(e) ==> e == MatrixError::OutOfBounds && *final(self) == *old(self),
    {
        if index >= self.rows {
            return Err(MatrixError::OutOfBounds);
        }
        proof {
            lemma_row_in_bounds(self@.rows, self@.cols, index as int);
            assert(self.array@.len() == self.array.len());
        }
        let start: usize = index * self.cols;
        let cols: usize = self.cols;
        let ghost before = self.array@;
        let (head, tail) = self.array.as_mut_slice().split_at_mut(start);
        let (cells, rest) = tail.split_at_mut(cols);
        proof {
            assert(head@ =~= before.subrange(0, start as int));
            assert(cells@ =~= before.subrange(start as int, start + cols));
            assert(rest@ =~= before.subrange(start + cols, before.len() as int));
            let ghost left = final(head)@;
            let ghost middle = final(cells)@;
            let ghost right = final(rest)@;
            assert(left + (middle + right) =~= (left + middle) + right);
        }
        Ok(cells)
    }

    /// The cell at `index`, given as `(row, col)`, for writing.
    ///
    /// Fails with [`MatrixError::OutOfBounds`], leaving the matrix as it is,
    /// exactly when there is no such cell. Otherwise the matrix ends up with
    /// what the caller leaves in the cell, and all other cells as they were.
    pub fn index_mut(&mut self, index: (usize, usize)) -> (r: Result<&mut T, MatrixError>)
        requires
            old(self).wf(),
        ensures
            old(self)@.has(index.0 as int, index.1 as int) <==> r is Ok,
            r matches Ok(v) ==> {
                &&& *v == old(self)@.at(index.0 as int, index.1 as int)
                &&& final(self).wf()
                &&& final(self)@ == old(self)@.with_cell(index.0 as int, index.1 as int, *final(v))
            },
            r matches Err(e) ==> e == MatrixError::OutOfBounds && *final(self) == *old(self),
    {
        let (row, col) = index;
        if row >= self.rows || col >= self.cols {
            return Err(MatrixError::OutOfBounds);
        }
        proof {
            lemma_offset_in_bounds(self@.rows, self@.cols, row as int, col as int);
            assert(self.array@.len() == self.array.len());
        }
        let at: usize = row * self.cols + col;
        Ok(&mut self.array[at])
    }
}

} // verus!
