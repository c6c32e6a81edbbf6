use matrijs::Matrix;
use matrijs::MatrixError;

type M = Matrix<f32>;

#[test]
fn transpose() {
    let arr = &[
        0., 1., 2., //
        3., 4., 5., //
        6., 7., 8.,
    ];
    let m = M::new(3, 3, arr).unwrap();

    let arr_t = &[
        0., 3., 6., //
        1., 4., 7., //
        2., 5., 8.,
    ];
    let m_t_manual = M::new(3, 3, arr_t).unwrap();

    assert_eq!(m.t(), m_t_manual);

    // Check that m has not changed due to the previous m.t().
    assert_ne!(m, m_t_manual);
    // Make m mutable so we can transpose it in place.
    let mut m = m;
    m.transpose();
    // m should be transposed, now.
    assert_eq!(m, m_t_manual);
}

#[test]
fn grow_col() {
    let mut m = M::one(3, 2);
    let col = [0.0; 3];
    m.append_col(&col).unwrap();

    let arr = &[
        1., 1., 0., //
        1., 1., 0., //
        1., 1., 0.,
    ];
    let manual_m = M::new(3, 3, arr).unwrap();
    assert_eq!(m, manual_m)
}

#[test]
fn grow_row() {
    let mut m = M::one(2, 3);
    let row = [0.0; 3];
    m.append_row(&row).unwrap();

    let arr = &[
        1., 1., 1., //
        1., 1., 1., //
        0., 0., 0.,
    ];
    let manual_m = M::new(3, 3, arr).unwrap();
    assert_eq!(m, manual_m)
}

#[test]
fn grow_col_transposed() {
    let mut m = M::one(3, 2);
    let col = [0.0; 3];
    // Transpose it so we can grow a row onto m.
    m.transpose();
    m.append_row(&col).unwrap();
    // Transpose m again. A column should now have been tacked on.
    m.transpose();

    let arr = &[
        1., 1., 0., //
        1., 1., 0., //
        1., 1., 0.,
    ];
    let manual_m = M::new(3, 3, arr).unwrap();
    assert_eq!(m, manual_m)
}

#[test]
fn transpose_of_a_wide_matrix() {
    let m = M::new(2, 3, &[0.0, 1.0, 2.0, 3.0, 4.0, 5.0]).unwrap();
    let t = m.t();
    assert_eq!(t.shape(), (3, 2));
    assert_eq!(t.array(), &[0.0, 3.0, 1.0, 4.0, 2.0, 5.0]);
    for r in 0..2 {
        for c in 0..3 {
            assert_eq!(t.index((c, r)), m.index((r, c)));
        }
    }
}

#[test]
fn transpose_twice_restores() {
    let m = M::new(2, 3, &[0.0, 1.0, 2.0, 3.0, 4.0, 5.0]).unwrap();
    assert_eq!(m.t().t(), m);
    let mut n = m.clone();
    n.transpose();
    assert_ne!(n, m);
    n.transpose();
    assert_eq!(n, m);
}

#[test]
fn t_leaves_the_receiver_alone() {
    let m = M::new(2, 3, &[0.0, 1.0, 2.0, 3.0, 4.0, 5.0]).unwrap();
    let _ = m.t();
    assert_eq!(m.shape(), (2, 3));
    assert_eq!(m.array(), &[0.0, 1.0, 2.0, 3.0, 4.0, 5.0]);
}

#[test]
fn transpose_of_empty_shapes() {
    let mut m = M::new(0, 3, &[]).unwrap();
    m.transpose();
    assert_eq!(m.shape(), (3, 0));
    assert_eq!(m.array().len(), 0);
    m.transpose();
    assert_eq!(m.shape(), (0, 3));
}

#[test]
fn append_row_keeps_leading_rows() {
    let mut m = M::new(2, 2, &[1.0, 2.0, 3.0, 4.0]).unwrap();
    m.append_row(&[5.0, 6.0]).unwrap();
    assert_eq!(m.shape(), (3, 2));
    assert_eq!(m.row(0), Ok(&[1.0, 2.0][..]));
    assert_eq!(m.row(1), Ok(&[3.0, 4.0][..]));
    assert_eq!(m.row(2), Ok(&[5.0, 6.0][..]));
    assert_eq!(m.array().len(), m.rows() * m.cols());
}

#[test]
fn append_row_of_wrong_length_is_shape_mismatch() {
    let mut m = M::one(2, 3);
    assert_eq!(m.append_row(&[0.0; 2]), Err(MatrixError::ShapeMismatch));
    assert_eq!(m.append_row(&[0.0; 4]), Err(MatrixError::ShapeMismatch));
    assert_eq!(m, M::one(2, 3));
}

#[test]
fn append_col_interleaves() {
    let mut m = M::new(2, 2, &[1.0, 2.0, 3.0, 4.0]).unwrap();
    m.append_col(&[5.0, 6.0]).unwrap();
    assert_eq!(m.shape(), (2, 3));
    assert_eq!(m.array(), &[1.0, 2.0, 5.0, 3.0, 4.0, 6.0]);
    assert_eq!(m.col(2), Ok(vec![5.0, 6.0]));
    assert_eq!(m.array().len(), m.rows() * m.cols());
}

#[test]
fn append_col_of_wrong_length_is_shape_mismatch() {
    let mut m = M::one(3, 2);
    assert_eq!(m.append_col(&[0.0; 2]), Err(MatrixError::ShapeMismatch));
    assert_eq!(m.append_col(&[0.0; 4]), Err(MatrixError::ShapeMismatch));
    assert_eq!(m, M::one(3, 2));
}

#[test]
fn append_col_equals_transpose_append_row_transpose() {
    let base = M::new(3, 2, &[1.0, 2.0, 3.0, 4.0, 5.0, 6.0]).unwrap();
    let col = [7.0, 8.0, 9.0];

    let mut direct = base.clone();
    direct.append_col(&col).unwrap();

    let mut around = base.clone();
    around.transpose();
    around.append_row(&col).unwrap();
    around.transpose();

    assert_eq!(direct, around);
    assert_eq!(direct.array(), &[1.0, 2.0, 7.0, 3.0, 4.0, 8.0, 5.0, 6.0, 9.0]);
}

#[test]
fn append_to_empty_shapes() {
    let mut m = M::new(0, 2, &[]).unwrap();
    m.append_row(&[1.0, 2.0]).unwrap();
    assert_eq!(m.shape(), (1, 2));
    assert_eq!(m.array(), &[1.0, 2.0]);

    let mut n = M::new(2, 0, &[]).unwrap();
    n.append_col(&[1.0, 2.0]).unwrap();
    assert_eq!(n.shape(), (2, 1));
    assert_eq!(n.array(), &[1.0, 2.0]);

    let mut e = M::new(0, 0, &[]).unwrap();
    e.append_col(&[]).unwrap();
    assert_eq!(e.shape(), (0, 1));
    e.append_row(&[3.0]).unwrap();
    assert_eq!(e.shape(), (1, 1));
    assert_eq!(e.array(), &[3.0]);
}
