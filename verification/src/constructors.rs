//! Constructors that need the zero and the one of the element type.

use vstd::prelude::*;
use vstd::std_specs::convert::FromSpec;
use crate::algebra::one;
use crate::algebra::zero;
use crate::grid::Grid;
use crate::layout::offset;
use crate::layout::lemma_offset_in_bounds;
use crate::layout::lemma_offset_split;
use crate::layout::lemma_split_in_bounds;
use crate::matrix::Matrix;

verus! {

impl<T: Copy + From<u8>> Matrix<T> {
    /// Builds a `rows` by `cols` matrix of zeros.
    pub fn zero(rows: usize, cols: usize) -> (m: Self)
        ensures
            m.wf(),
            exists|z: T| m@ == Grid::filled(rows as nat, cols as nat, z),
            T::obeys_from_spec() ==> m@ == Grid::filled(rows as nat, cols as nat, zero::<T>()),
    {
        Self::with_value(rows, cols, T::from(0u8))
    }

    /// Builds a `rows` by `cols` matrix of ones.
    pub fn one(rows: usize, cols: usize) -> (m: Self)
        ensures
            m.wf(),
            exists|o: T| m@ == Grid::filled(rows as nat, cols as nat, o),
            T::obeys_from_spec() ==> m@ == Grid::filled(rows as nat, cols as nat, one::<T>()),
    {
        Self::with_value(rows, cols, T::from(1u8))
    }

    /// Builds the square matrix with `values` on its main diagonal and zero
    /// elsewhere.
    pub fn diagonal(values: &[T]) -> (m: Self)
        ensures
            m.wf(),
            exists|z: T| m@ == Grid::diagonal(values@, z),
            T::obeys_from_spec() ==> m@ == Grid::diagonal(values@, zero::<T>()),
    {
        let size: usize = values.len();
        let z: T = T::from(0u8);
        let mut d = Self::with_value(size, size, z);
        let mut index: usize = 0;
        while index < size
            invariant
                size == values@.len(),
                index <= size,
                d.wf(),
                d@.rows == size,
                d@.cols == size,
                forall|k: int|
                    0 <= k < d@.cells.len() ==> d@.cells[k] == if k / (size as int) == k % (
                    size as int) && k / (size as int) < index {
                        values@[k / (size as int)]
                    } else {
                        z
                    },
            decreases size - index,
        {
            let ghost before = d@;
            d.set_cell(index, index, values[index]);
            proof {
                lemma_offset_split(size as nat, index as int, index as int);
                lemma_offset_in_bounds(size as nat, size as nat, index as int, index as int);
                assert forall|k: int| 0 <= k < d@.cells.len() implies d@.cells[k] == if k / (
                size as int) == k % (size as int) && k / (size as int) < index + 1 {
                    values@[k / (size as int)]
                } else {
                    z
                } by {
                    lemma_split_in_bounds(size as nat, size as nat, k);
                    if k != offset(size as nat, index as int, index as int) {
                        assert(d@.cells[k] == before.cells[k]);
                    }
                }
            }
            index += 1;
        }
        proof {
            assert forall|k: int| 0 <= k < d@.cells.len() implies d@.cells[k] == Grid::diagonal(
                values@,
                z,
            ).cells[k] by {
                lemma_split_in_bounds(size as nat, size as nat, k);
            }
            assert(d@.cells =~= Grid::diagonal(values@, z).cells);
        }
        d
    }

    /// Builds the `size` by `size` identity matrix: one on the main diagonal,
    /// zero elsewhere.
    pub fn identity(size: usize) -> (m: Self)
        ensures
            m.wf(),
            exists|o: T, z: T| m@ == Grid::unit_diagonal(size as nat, o, z),
            T::obeys_from_spec() ==> m@ == Grid::<T>::identity(size as nat),
    {
        let z: T = T::from(0u8);
        let o: T = T::from(1u8);
        let mut m = Self::with_value(size, size, z);
        let mut index: usize = 0;
        while index < size
            invariant
                index <= size,
                m.wf(),
                m@.rows == size,
                m@.cols == size,
                forall|k: int|
                    0 <= k < m@.cells.len() ==> m@.cells[k] == if k / (size as int) == k % (
                    size as int) && k / (size as int) < index {
                        o
                    } else {
                        z
                    },
            decreases size - index,
        {
            let ghost before = m@;
            m.set_cell(index, index, o);
            proof {
                lemma_offset_split(size as nat, index as int, index as int);
                lemma_offset_in_bounds(size as nat, size as nat, index as int, index as int);
                assert forall|k: int| 0 <= k < m@.cells.len() implies m@.cells[k] == if k / (
                size as int) == k % (size as int) && k / (size as int) < index + 1 {
                    o
                } else {
                    z
                } by {
                    lemma_split_in_bounds(size as nat, size as nat, k);
                    if k != offset(size as nat, index as int, index as int) {
                        assert(m@.cells[k] == before.cells[k]);
                    }
                }
            }
            index += 1;
        }
        proof {
            assert forall|k: int| 0 <= k < m@.cells.len() implies m@.cells[k]
                == Grid::unit_diagonal(size as nat, o, z).cells[k] by {
                lemma_split_in_bounds(size as nat, size as nat, k);
            }
            assert(m@.cells =~= Grid::unit_diagonal(size as nat, o, z).cells);
        }
        m
    }
}

} // verus!
