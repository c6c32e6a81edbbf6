use matrijs::Matrix;
use matrijs::MatrixError;

type M = Matrix<f32>;

fn sample() -> M {
    M::new(2, 3, &[0.0, 1.0, 2.0, 3.0, 4.0, 5.0]).unwrap()
}

#[test]
fn row_is_a_contiguous_segment() {
    let m = sample();
    assert_eq!(m.row(0), Ok(&[0.0, 1.0, 2.0][..]));
    assert_eq!(m.row(1), Ok(&[3.0, 4.0, 5.0][..]));
}

#[test]
fn row_out_of_bounds() {
    let m = sample();
    assert_eq!(m.row(2), Err(MatrixError::OutOfBounds));
    assert_eq!(m.row(usize::MAX), Err(MatrixError::OutOfBounds));
}

#[test]
fn col_gathers_with_stride() {
    let m = sample();
    assert_eq!(m.col(0), Ok(vec![0.0, 3.0]));
    assert_eq!(m.col(1), Ok(vec![1.0, 4.0]));
    assert_eq!(m.col(2), Ok(vec![2.0, 5.0]));
}

#[test]
fn col_out_of_bounds() {
    let m = sample();
    assert_eq!(m.col(3), Err(MatrixError::OutOfBounds));
}

#[test]
fn col_is_a_copy() {
    let m = sample();
    let mut c = m.col(1).unwrap();
    c[0] = 100.0;
    assert_eq!(m.index((0, 1)), Ok(&1.0));
}

#[test]
fn index_reads_row_major() {
    let m = sample();
    for r in 0..2 {
        for c in 0..3 {
            assert_eq!(m.index((r, c)), Ok(&((r * 3 + c) as f32)));
        }
    }
}

#[test]
fn index_out_of_bounds() {
    let m = sample();
    assert_eq!(m.index((2, 0)), Err(MatrixError::OutOfBounds));
    assert_eq!(m.index((0, 3)), Err(MatrixError::OutOfBounds));
    assert_eq!(m.index((2, 3)), Err(MatrixError::OutOfBounds));
}

#[test]
fn index_mut_writes_one_cell() {
    let mut m = sample();
    *m.index_mut((1, 1)).unwrap() = 40.0;
    assert_eq!(m.array(), &[0.0, 1.0, 2.0, 3.0, 40.0, 5.0]);
    assert_eq!(m.shape(), (2, 3));
}

#[test]
fn index_mut_out_of_bounds_changes_nothing() {
    let mut m = sample();
    assert_eq!(m.index_mut((2, 0)), Err(MatrixError::OutOfBounds));
    assert_eq!(m.index_mut((0, 3)), Err(MatrixError::OutOfBounds));
    assert_eq!(m, sample());
}

#[test]
fn row_mut_writes_one_row() {
    let mut m = sample();
    {
        let row = m.row_mut(0).unwrap();
        assert_eq!(row, &[0.0, 1.0, 2.0]);
        row[0] = 10.0;
        row[2] = 12.0;
    }
    assert_eq!(m.array(), &[10.0, 1.0, 12.0, 3.0, 4.0, 5.0]);
    {
        let row = m.row_mut(1).unwrap();
        row.copy_from_slice(&[7.0, 8.0, 9.0]);
    }
    assert_eq!(m.array(), &[10.0, 1.0, 12.0, 7.0, 8.0, 9.0]);
    assert_eq!(m.array().len(), m.rows() * m.cols());
}

#[test]
fn row_mut_out_of_bounds_changes_nothing() {
    let mut m = sample();
    assert_eq!(m.row_mut(2), Err(MatrixError::OutOfBounds));
    assert_eq!(m, sample());
}

#[test]
fn rows_of_a_matrix_without_columns_are_empty() {
    let m = M::new(2, 0, &[]).unwrap();
    assert_eq!(m.row(1), Ok(&[][..]));
    assert_eq!(m.row(2), Err(MatrixError::OutOfBounds));
    assert_eq!(m.col(0), Err(MatrixError::OutOfBounds));
    assert_eq!(m.index((0, 0)), Err(MatrixError::OutOfBounds));
}

#[test]
fn cols_of_a_matrix_without_rows_are_empty() {
    let m = M::new(0, 2, &[]).unwrap();
    assert_eq!(m.col(1), Ok(vec![]));
    assert_eq!(m.row(0), Err(MatrixError::OutOfBounds));
}
