//! Matrix multiplication.

use vstd::prelude::*;
use vstd::std_specs::convert::FromSpec;
use vstd::std_specs::ops::AddSpec;
use vstd::std_specs::ops::MulSpec;
use core::ops::Add;
use core::ops::Mul;
use crate::error::MatrixError;
use crate::layout::lemma_offset_split;
use crate::layout::lemma_row_in_bounds;
use crate::matrix::Matrix;

verus! {

impl<T: Copy + From<u8> + Add<Output = T> + Mul<Output = T>> Matrix<T> {
    /// The matrix product of `self` (`m` by `n`) and `rhs` (`n` by `p`).
    ///
    /// Each cell of the `m` by `p` result is the sum of the `n` products along
    /// the inner dimension, accumulated from zero in order. Fails with
    /// [`MatrixError::ShapeMismatch`] exactly when the inner dimensions differ.
    pub fn dot(self, rhs: Self) -> (r: Result<Self, MatrixError>)
        requires
            self.wf(),
            rhs.wf(),
            self@.cols == rhs@.rows ==> self@.dot_ready(rhs@),
        ensures
            self@.cols == rhs@.rows <==> r is Ok,
            r matches Ok(c) ==> c.wf() && c@ == self@.dot(rhs@),
            r matches Err(e) ==> e == MatrixError::ShapeMismatch,
    {
        if self.cols != rhs.rows {
            return Err(MatrixError::ShapeMismatch);
        }
        let m: usize = self.rows;
        let n: usize = self.cols;
        let p: usize = rhs.cols;
        let mut cells: Vec<T> = Vec::new();
        let mut i: usize = 0;
        while i < m
            invariant
                self.wf(),
                rhs.wf(),
                self@.dot_ready(rhs@),
                m == self@.rows,
                n == self@.cols,
                n == rhs@.rows,
                p == rhs@.cols,
                i <= m,
                cells@.len() == i * p,
                forall|x: int|
                    0 <= x < cells@.len() ==> cells@[x] == self@.dot_cell(
                        rhs@,
                        x / (p as int),
                        x % (p as int),
                        n as nat,
                    ),
            decreases m - i,
        {
            let mut j: usize = 0;
            while j < p
                invariant
                    self.wf(),
                    rhs.wf(),
                    self@.dot_ready(rhs@),
                    m == self@.rows,
                    n == self@.cols,
                    n == rhs@.rows,
                    p == rhs@.cols,
                    i < m,
                    j <= p,
                    cells@.len() == i * p + j,
                    forall|x: int|
                        0 <= x < cells@.len() ==> cells@[x] == self@.dot_cell(
                            rhs@,
                            x / (p as int),
                            x % (p as int),
                            n as nat,
                        ),
                decreases p - j,
            {
                let mut sum: T = T::from(0u8);
                let mut k: usize = 0;
                while k < n
                    invariant
                        self.wf(),
                        rhs.wf(),
                        self@.dot_ready(rhs@),
                        m == self@.rows,
                        n == self@.cols,
                        n == rhs@.rows,
                        p == rhs@.cols,
                        i < m,
                        j < p,
                        k <= n,
                        sum == self@.dot_cell(rhs@, i as int, j as int, k as nat),
                    decreases n - k,
                {
                    assert(self@.dot_step_ready(rhs@, i as int, j as int, k as int));
                    let product: T = self.cell(i, k) * rhs.cell(k, j);
                    sum = sum + product;
                    k += 1;
                }
                proof {
                    lemma_offset_split(p as nat, i as int, j as int);
                }
                cells.push(sum);
                j += 1;
            }
            proof {
                lemma_row_in_bounds(m as nat, p as nat, i as int);
            }
            i += 1;
        }
        assert(cells@ =~= self@.dot(rhs@).cells);
        Ok(Matrix { cols: p, rows: m, array: cells })
    }
}

} // verus!
