//! Arithmetic on every cell: with one scalar, or cell by cell with a second
//! matrix of the same shape.
//!
//! The element type's operators do the work on each cell. Where an operator
//! is the one its specification describes, the result is the one the model
//! gives; the shape is kept in any case.

use vstd::prelude::*;
use vstd::std_specs::ops::AddSpec;
use vstd::std_specs::ops::DivSpec;
use vstd::std_specs::ops::MulSpec;
use vstd::std_specs::ops::SubSpec;
use core::ops::Add;
use core::ops::Div;
use core::ops::Mul;
use core::ops::Sub;
use crate::error::MatrixError;
use crate::matrix::Matrix;

verus! {

impl<T: Copy + Add<Output = T>> Matrix<T> {
    /// Adds `rhs` to every cell, in place.
    pub fn add_assign(&mut self, rhs: T)
        requires
            old(self).wf(),
            old(self)@.plus_scalar_ready(rhs),
        ensures
            final(self).wf(),
            final(self)@.same_shape(old(self)@),
            T::obeys_add_spec() ==> final(self)@ == old(self)@.plus_scalar(rhs),
    {
        let n: usize = self.array.len();
        let mut k: usize = 0;
        while k < n
            invariant
                n == self.array@.len(),
                self.array@.len() == old(self).array@.len(),
                self.rows == old(self).rows,
                self.cols == old(self).cols,
                k <= n,
                old(self)@.plus_scalar_ready(rhs),
                forall|x: int| k <= x < n ==> self.array@[x] == old(self).array@[x],
                T::obeys_add_spec() ==> forall|x: int|
                    0 <= x < k ==> self.array@[x] == old(self).array@[x].add_spec(rhs),
            decreases n - k,
        {
            assert(old(self)@.cells[k as int].add_req(rhs));
            let value: T = self.array[k] + rhs;
            self.array[k] = value;
            k += 1;
        }
        assert(T::obeys_add_spec() ==> self@.cells =~= old(self)@.plus_scalar(rhs).cells);
    }

    /// The matrix with `rhs` added to every cell.
    pub fn add_scalar(self, rhs: T) -> (m: Self)
        requires
            self.wf(),
            self@.plus_scalar_ready(rhs),
        ensures
            m.wf(),
            m@.same_shape(self@),
            T::obeys_add_spec() ==> m@ == self@.plus_scalar(rhs),
    {
        let mut m = self;
        m.add_assign(rhs);
        m
    }

    /// Adds `rhs` to `self`, cell by cell.
    ///
    /// Fails with [`MatrixError::ShapeMismatch`] exactly when the two shapes
    /// differ.
    pub fn add_elementwise(self, rhs: Self) -> (r: Result<Self, MatrixError>)
        requires
            self.wf(),
            rhs.wf(),
            self@.same_shape(rhs@) ==> self@.plus_ready(rhs@),
        ensures
            self@.same_shape(rhs@) <==> r is Ok,
            r matches Ok(m) ==> m.wf() && m@.same_shape(self@) && (T::obeys_add_spec() ==> m@
                == self@.plus(rhs@)),
            r matches Err(e) ==> e == MatrixError::ShapeMismatch,
    {
        if self.rows != rhs.rows || self.cols != rhs.cols {
            return Err(MatrixError::ShapeMismatch);
        }
        let ghost before = self@;
        let mut m = self;
        let n: usize = m.array.len();
        let mut k: usize = 0;
        while k < n
            invariant
                n == m.array@.len(),
                n == rhs.array@.len(),
                m.array@.len() == before.cells.len(),
                m.rows == before.rows,
                m.cols == before.cols,
                k <= n,
                before.plus_ready(rhs@),
                forall|x: int| k <= x < n ==> m.array@[x] == before.cells[x],
                T::obeys_add_spec() ==> forall|x: int|
                    0 <= x < k ==> m.array@[x] == before.cells[x].add_spec(rhs.array@[x]),
            decreases n - k,
        {
            assert(before.cells[k as int].add_req(rhs@.cells[k as int]));
            let value: T = m.array[k] + rhs.array[k];
            m.array[k] = value;
            k += 1;
        }
        assert(T::obeys_add_spec() ==> m@.cells =~= before.plus(rhs@).cells);
        Ok(m)
    }
}

impl<T: Copy + Sub<Output = T>> Matrix<T> {
    /// Subtracts `rhs` from every cell, in place.
    pub fn sub_assign(&mut self, rhs: T)
        requires
            old(self).wf(),
            old(self)@.minus_scalar_ready(rhs),
        ensures
            final(self).wf(),
            final(self)@.same_shape(old(self)@),
            T::obeys_sub_spec() ==> final(self)@ == old(self)@.minus_scalar(rhs),
    {
        let n: usize = self.array.len();
        let mut k: usize = 0;
        while k < n
            invariant
                n == self.array@.len(),
                self.array@.len() == old(self).array@.len(),
                self.rows == old(self).rows,
                self.cols == old(self).cols,
                k <= n,
                old(self)@.minus_scalar_ready(rhs),
                forall|x: int| k <= x < n ==> self.array@[x] == old(self).array@[x],
                T::obeys_sub_spec() ==> forall|x: int|
                    0 <= x < k ==> self.array@[x] == old(self).array@[x].sub_spec(rhs),
            decreases n - k,
        {
            assert(old(self)@.cells[k as int].sub_req(rhs));
            let value: T = self.array[k] - rhs;
            self.array[k] = value;
            k += 1;
        }
        assert(T::obeys_sub_spec() ==> self@.cells =~= old(self)@.minus_scalar(rhs).cells);
    }

    /// The matrix with `rhs` subtracted from every cell.
    pub fn sub_scalar(self, rhs: T) -> (m: Self)
        requires
            self.wf(),
            self@.minus_scalar_ready(rhs),
        ensures
            m.wf(),
            m@.same_shape(self@),
            T::obeys_sub_spec() ==> m@ == self@.minus_scalar(rhs),
    {
        let mut m = self;
        m.sub_assign(rhs);
        m
    }

    /// Subtracts `rhs` from `self`, cell by cell.
    ///
    /// Fails with [`MatrixError::ShapeMismatch`] exactly when the two shapes
    /// differ.
    pub fn sub_elementwise(self, rhs: Self) -> (r: Result<Self, MatrixError>)
        requires
            self.wf(),
            rhs.wf(),
            self@.same_shape(rhs@) ==> self@.minus_ready(rhs@),
        ensures
            self@.same_shape(rhs@) <==> r is Ok,
            r matches Ok(m) ==> m.wf() && m@.same_shape(self@) && (T::obeys_sub_spec() ==> m@
                == self@.minus(rhs@)),
            r matches Err(e) ==> e == MatrixError::ShapeMismatch,
    {
        if self.rows != rhs.rows || self.cols != rhs.cols {
            return Err(MatrixError::ShapeMismatch);
        }
        let ghost before = self@;
        let mut m = self;
        let n: usize = m.array.len();
        let mut k: usize = 0;
        while k < n
            invariant
                n == m.array@.len(),
                n == rhs.array@.len(),
                m.array@.len() == before.cells.len(),
                m.rows == before.rows,
                m.cols == before.cols,
                k <= n,
                before.minus_ready(rhs@),
                forall|x: int| k <= x < n ==> m.array@[x] == before.cells[x],
                T::obeys_sub_spec() ==> forall|x: int|
                    0 <= x < k ==> m.array@[x] == before.cells[x].sub_spec(rhs.array@[x]),
            decreases n - k,
        {
            assert(before.cells[k as int].sub_req(rhs@.cells[k as int]));
            let value: T = m.array[k] - rhs.array[k];
            m.array[k] = value;
            k += 1;
        }
        assert(T::obeys_sub_spec() ==> m@.cells =~= before.minus(rhs@).cells);
        Ok(m)
    }
}

impl<T: Copy + Mul<Output = T>> Matrix<T> {
    /// Multiplies every cell by `rhs`, in place.
    pub fn mul_assign(&mut self, rhs: T)
        requires
            old(self).wf(),
            old(self)@.times_scalar_ready(rhs),
        ensures
            final(self).wf(),
            final(self)@.same_shape(old(self)@),
            T::obeys_mul_spec() ==> final(self)@ == old(self)@.times_scalar(rhs),
    {
        let n: usize = self.array.len();
        let mut k: usize = 0;
        while k < n
            invariant
                n == self.array@.len(),
                self.array@.len() == old(self).array@.len(),
                self.rows == old(self).rows,
                self.cols == old(self).cols,
                k <= n,
                old(self)@.times_scalar_ready(rhs),
                forall|x: int| k <= x < n ==> self.array@[x] == old(self).array@[x],
                T::obeys_mul_spec() ==> forall|x: int|
                    0 <= x < k ==> self.array@[x] == old(self).array@[x].mul_spec(rhs),
            decreases n - k,
        {
            assert(old(self)@.cells[k as int].mul_req(rhs));
            let value: T = self.array[k] * rhs;
            self.array[k] = value;
            k += 1;
        }
        assert(T::obeys_mul_spec() ==> self@.cells =~= old(self)@.times_scalar(rhs).cells);
    }

    /// The matrix with every cell multiplied by `rhs`.
    pub fn mul_scalar(self, rhs: T) -> (m: Self)
        requires
            self.wf(),
            self@.times_scalar_ready(rhs),
        ensures
            m.wf(),
            m@.same_shape(self@),
            T::obeys_mul_spec() ==> m@ == self@.times_scalar(rhs),
    {
        let mut m = self;
        m.mul_assign(rhs);
        m
    }

    /// Multiplies `self` by `rhs`, cell by cell.
    ///
    /// This is the elementwise (Hadamard) product. For the matrix product see
    /// `dot`.
    ///
    /// Fails with [`MatrixError::ShapeMismatch`] exactly when the two shapes
    /// differ.
    pub fn mul_elementwise(self, rhs: Self) -> (r: Result<Self, MatrixError>)
        requires
            self.wf(),
            rhs.wf(),
            self@.same_shape(rhs@) ==> self@.times_ready(rhs@),
        ensures
            self@.same_shape(rhs@) <==> r is Ok,
            r matches Ok(m) ==> m.wf() && m@.same_shape(self@) && (T::obeys_mul_spec() ==> m@
                == self@.times(rhs@)),
            r matches Err(e) ==> e == MatrixError::ShapeMismatch,
    {
        if self.rows != rhs.rows || self.cols != rhs.cols {
            return Err(MatrixError::ShapeMismatch);
        }
        let ghost before = self@;
        let mut m = self;
        let n: usize = m.array.len();
        let mut k: usize = 0;
        while k < n
            invariant
                n == m.array@.len(),
                n == rhs.array@.len(),
                m.array@.len() == before.cells.len(),
                m.rows == before.rows,
                m.cols == before.cols,
                k <= n,
                before.times_ready(rhs@),
                forall|x: int| k <= x < n ==> m.array@[x] == before.cells[x],
                T::obeys_mul_spec() ==> forall|x: int|
                    0 <= x < k ==> m.array@[x] == before.cells[x].mul_spec(rhs.array@[x]),
            decreases n - k,
        {
            assert(before.cells[k as int].mul_req(rhs@.cells[k as int]));
            let value: T = m.array[k] * rhs.array[k];
            m.array[k] = value;
            k += 1;
        }
        assert(T::obeys_mul_spec() ==> m@.cells =~= before.times(rhs@).cells);
        Ok(m)
    }
}

impl<T: Copy + Div<Output = T>> Matrix<T> {
    /// Divides every cell by `rhs`, in place.
    pub fn div_assign(&mut self, rhs: T)
        requires
            old(self).wf(),
            old(self)@.over_scalar_ready(rhs),
        ensures
            final(self).wf(),
            final(self)@.same_shape(old(self)@),
            T::obeys_div_spec() ==> final(self)@ == old(self)@.over_scalar(rhs),
    {
        let n: usize = self.array.len();
        let mut k: usize = 0;
        while k < n
            invariant
                n == self.array@.len(),
                self.array@.len() == old(self).array@.len(),
                self.rows == old(self).rows,
                self.cols == old(self).cols,
                k <= n,
                old(self)@.over_scalar_ready(rhs),
                forall|x: int| k <= x < n ==> self.array@[x] == old(self).array@[x],
                T::obeys_div_spec() ==> forall|x: int|
                    0 <= x < k ==> self.array@[x] == old(self).array@[x].div_spec(rhs),
            decreases n - k,
        {
            assert(old(self)@.cells[k as int].div_req(rhs));
            let value: T = self.array[k] / rhs;
            self.array[k] = value;
            k += 1;
        }
        assert(T::obeys_div_spec() ==> self@.cells =~= old(self)@.over_scalar(rhs).cells);
    }

    /// The matrix with every cell divided by `rhs`.
    pub fn div_scalar(self, rhs: T) -> (m: Self)
        requires
            self.wf(),
            self@.over_scalar_ready(rhs),
        ensures
            m.wf(),
            m@.same_shape(self@),
            T::obeys_div_spec() ==> m@ == self@.over_scalar(rhs),
    {
        let mut m = self;
        m.div_assign(rhs);
        m
    }

    /// Divides `self` by `rhs`, cell by cell.
    ///
    /// Fails with [`MatrixError::ShapeMismatch`] exactly when the two shapes
    /// differ.
    pub fn div_elementwise(self, rhs: Self) -> (r: Result<Self, MatrixError>)
        requires
            self.wf(),
            rhs.wf(),
            self@.same_shape(rhs@) ==> self@.over_ready(rhs@),
        ensures
            self@.same_shape(rhs@) <==> r is Ok,
            r matches Ok(m) ==> m.wf() && m@.same_shape(self@) && (T::obeys_div_spec() ==> m@
                == self@.over(rhs@)),
            r matches Err(e) ==> e == MatrixError::ShapeMismatch,
    {
        if self.rows != rhs.rows || self.cols != rhs.cols {
            return Err(MatrixError::ShapeMismatch);
        }
        let ghost before = self@;
        let mut m = self;
        let n: usize = m.array.len();
        let mut k: usize = 0;
        while k < n
            invariant
                n == m.array@.len(),
                n == rhs.array@.len(),
                m.array@.len() == before.cells.len(),
                m.rows == before.rows,
                m.cols == before.cols,
                k <= n,
                before.over_ready(rhs@),
                forall|x: int| k <= x < n ==> m.array@[x] == before.cells[x],
                T::obeys_div_spec() ==> forall|x: int|
                    0 <= x < k ==> m.array@[x] == before.cells[x].div_spec(rhs.array@[x]),
            decreases n - k,
        {
            assert(before.cells[k as int].div_req(rhs@.cells[k as int]));
            let value: T = m.array[k] / rhs.array[k];
            m.array[k] = value;
            k += 1;
        }
        assert(T::obeys_div_spec() ==> m@.cells =~= before.over(rhs@).cells);
        Ok(m)
    }
}

} // verus!
