//! The arithmetic of the matrix model, stated over the operator
//! specifications of the element type.
//!
//! Zero and one of an element type are the images of `0u8` and `1u8` under
//! its `From<u8>` conversion.

use vstd::prelude::*;
use vstd::std_specs::convert::FromSpec;
use vstd::std_specs::ops::AddSpec;
use vstd::std_specs::ops::MulSpec;
use vstd::std_specs::ops::DivSpec;
use vstd::std_specs::ops::SubSpec;
use core::ops::Add;
use core::ops::Div;
use core::ops::Mul;
use core::ops::Sub;
use crate::grid::Grid;

verus! {

/// The zero of the element type.
pub open spec fn zero<T: From<u8>>() -> T {
    T::from_spec(0u8)
}

/// The one of the element type.
pub open spec fn one<T: From<u8>>() -> T {
    T::from_spec(1u8)
}

/// Whether arithmetic with zero and one is exact on `x`: multiplying by zero
/// gives zero, multiplying by one and adding zero give `x`.
pub open spec fn unit_exact<T: From<u8> + Add<Output = T> + Mul<Output = T>>(x: T) -> bool {
    &&& zero::<T>().mul_spec(x) == zero::<T>()
    &&& x.mul_spec(zero::<T>()) == zero::<T>()
    &&& one::<T>().mul_spec(x) == x
    &&& x.mul_spec(one::<T>()) == x
    &&& zero::<T>().add_spec(x) == x
    &&& x.add_spec(zero::<T>()) == x
}

impl<T: From<u8>> Grid<T> {
    /// The `n` by `n` grid with one on the main diagonal and zero elsewhere.
    pub open spec fn identity(n: nat) -> Grid<T> {
        Grid::unit_diagonal(n, one::<T>(), zero::<T>())
    }
}

impl<T: From<u8> + Add<Output = T> + Mul<Output = T>> Grid<T> {
    /// The sum of the first `n` products `self[i][k] * rhs[k][j]`, taken in
    /// order of `k` and accumulated from zero on the left.
    pub open spec fn dot_cell(self, rhs: Grid<T>, i: int, j: int, n: nat) -> T
        decreases n,
    {
        if n == 0 {
            zero::<T>()
        } else {
            self.dot_cell(rhs, i, j, (n - 1) as nat).add_spec(
                self.at(i, n - 1).mul_spec(rhs.at(n - 1, j)),
            )
        }
    }

    /// The matrix product: cell `(i, j)` is the sum over the whole inner
    /// dimension.
    pub open spec fn dot(self, rhs: Grid<T>) -> Grid<T> {
        Grid {
            rows: self.rows,
            cols: rhs.cols,
            cells: Seq::new(
                self.rows * rhs.cols,
                |k: int| self.dot_cell(rhs, k / (rhs.cols as int), k % (rhs.cols as int), self.cols),
            ),
        }
    }

    /// Whether arithmetic with zero and one is exact on every cell of the
    /// grid, and zero added to zero is zero.
    pub open spec fn units_exact(self) -> bool {
        &&& zero::<T>().add_spec(zero::<T>()) == zero::<T>()
        &&& forall|k: int| 0 <= k < self.cells.len() ==> unit_exact(#[trigger] self.cells[k])
    }

    /// Whether step `k` of the sum for cell `(i, j)` can be computed: the
    /// product, and its addition to the sum so far, are within what the
    /// element type can do.
    pub open spec fn dot_step_ready(self, rhs: Grid<T>, i: int, j: int, k: int) -> bool {
        &&& self.at(i, k).mul_req(rhs.at(k, j))
        &&& self.dot_cell(rhs, i, j, k as nat).add_req(self.at(i, k).mul_spec(rhs.at(k, j)))
    }

    /// Whether the product can be computed: the element type's conversions
    /// and operators are the ones specified, and every step of every sum is
    /// ready.
    pub open spec fn dot_ready(self, rhs: Grid<T>) -> bool {
        &&& T::obeys_from_spec()
        &&& T::obeys_add_spec()
        &&& T::obeys_mul_spec()
        &&& forall|i: int, j: int, k: int|
            0 <= i < self.rows && 0 <= j < rhs.cols && 0 <= k < self.cols
                ==> #[trigger] self.dot_step_ready(rhs, i, j, k)
    }
}

impl<T: Add<Output = T>> Grid<T> {
    /// Whether `rhs` can be added to every cell.
    pub open spec fn plus_scalar_ready(self, rhs: T) -> bool {
        forall|k: int| 0 <= k < self.cells.len() ==> #[trigger] self.cells[k].add_req(rhs)
    }

    /// The grid with `rhs` added to every cell.
    pub open spec fn plus_scalar(self, rhs: T) -> Grid<T> {
        Grid {
            rows: self.rows,
            cols: self.cols,
            cells: Seq::new(self.cells.len(), |k: int| self.cells[k].add_spec(rhs)),
        }
    }

    /// Whether each cell of `rhs` can be added to the cell of `self` at the same place.
    pub open spec fn plus_ready(self, rhs: Grid<T>) -> bool {
        forall|k: int|
            0 <= k < self.cells.len() ==> #[trigger] self.cells[k].add_req(rhs.cells[k])
    }

    /// The cell-by-cell sum of two grids of the same shape.
    pub open spec fn plus(self, rhs: Grid<T>) -> Grid<T> {
        Grid {
            rows: self.rows,
            cols: self.cols,
            cells: Seq::new(
                self.cells.len(),
                |k: int| self.cells[k].add_spec(rhs.cells[k]),
            ),
        }
    }
}

impl<T: Sub<Output = T>> Grid<T> {
    /// Whether `rhs` can be subtracted from every cell.
    pub open spec fn minus_scalar_ready(self, rhs: T) -> bool {
        forall|k: int| 0 <= k < self.cells.len() ==> #[trigger] self.cells[k].sub_req(rhs)
    }

    /// The grid with `rhs` subtracted from every cell.
    pub open spec fn minus_scalar(self, rhs: T) -> Grid<T> {
        Grid {
            rows: self.rows,
            cols: self.cols,
            cells: Seq::new(self.cells.len(), |k: int| self.cells[k].sub_spec(rhs)),
        }
    }

    /// Whether each cell of `rhs` can be subtracted from the cell of `self` at the same place.
    pub open spec fn minus_ready(self, rhs: Grid<T>) -> bool {
        forall|k: int|
            0 <= k < self.cells.len() ==> #[trigger] self.cells[k].sub_req(rhs.cells[k])
    }

    /// The cell-by-cell difference of two grids of the same shape.
    pub open spec fn minus(self, rhs: Grid<T>) -> Grid<T> {
        Grid {
            rows: self.rows,
            cols: self.cols,
            cells: Seq::new(
                self.cells.len(),
                |k: int| self.cells[k].sub_spec(rhs.cells[k]),
            ),
        }
    }
}

impl<T: Mul<Output = T>> Grid<T> {
    /// Whether every cell can be multiplied by `rhs`.
    pub open spec fn times_scalar_ready(self, rhs: T) -> bool {
        forall|k: int| 0 <= k < self.cells.len() ==> #[trigger] self.cells[k].mul_req(rhs)
    }

    /// The grid with every cell multiplied by `rhs`.
    pub open spec fn times_scalar(self, rhs: T) -> Grid<T> {
        Grid {
            rows: self.rows,
            cols: self.cols,
            cells: Seq::new(self.cells.len(), |k: int| self.cells[k].mul_spec(rhs)),
        }
    }

    /// Whether each cell of `self` can be multiplied by the cell of `rhs` at the same place.
    pub open spec fn times_ready(self, rhs: Grid<T>) -> bool {
        forall|k: int|
            0 <= k < self.cells.len() ==> #[trigger] self.cells[k].mul_req(rhs.cells[k])
    }

    /// The cell-by-cell (Hadamard) product of two grids of the same shape; this is not the matrix product.
    pub open spec fn times(self, rhs: Grid<T>) -> Grid<T> {
        Grid {
            rows: self.rows,
            cols: self.cols,
            cells: Seq::new(
                self.cells.len(),
                |k: int| self.cells[k].mul_spec(rhs.cells[k]),
            ),
        }
    }
}

impl<T: Div<Output = T>> Grid<T> {
    /// Whether every cell can be divided by `rhs`.
    pub open spec fn over_scalar_ready(self, rhs: T) -> bool {
        forall|k: int| 0 <= k < self.cells.len() ==> #[trigger] self.cells[k].div_req(rhs)
    }

    /// The grid with every cell divided by `rhs`.
    pub open spec fn over_scalar(self, rhs: T) -> Grid<T> {
        Grid {
            rows: self.rows,
            cols: self.cols,
            cells: Seq::new(self.cells.len(), |k: int| self.cells[k].div_spec(rhs)),
        }
    }

    /// Whether each cell of `self` can be divided by the cell of `rhs` at the same place.
    pub open spec fn over_ready(self, rhs: Grid<T>) -> bool {
        forall|k: int|
            0 <= k < self.cells.len() ==> #[trigger] self.cells[k].div_req(rhs.cells[k])
    }

    /// The cell-by-cell quotient of two grids of the same shape.
    pub open spec fn over(self, rhs: Grid<T>) -> Grid<T> {
        Grid {
            rows: self.rows,
            cols: self.cols,
            cells: Seq::new(
                self.cells.len(),
                |k: int| self.cells[k].div_spec(rhs.cells[k]),
            ),
        }
    }
}

} // verus!
