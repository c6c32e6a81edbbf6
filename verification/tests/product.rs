use matrijs::Matrix;
use matrijs::MatrixError;

type M = Matrix<f32>;

#[test]
fn dot_of_two_by_two_and_two_by_three() {
    let a = M::new(2, 2, &[0.0, 1.0, 2.0, 3.0]).unwrap();
    let b = M::new(2, 3, &[4.0, 5.0, 6.0, 7.0, 8.0, 9.0]).unwrap();
    let c = a.dot(b).unwrap();
    assert_eq!(c, M::new(2, 3, &[7.0, 8.0, 9.0, 29.0, 34.0, 39.0]).unwrap());
    assert_eq!(c.shape(), (2, 3));
}

#[test]
fn dot_with_differing_inner_dimensions_is_shape_mismatch() {
    let e = M::one(3, 4);
    let f = M::one(3, 2);
    assert_eq!(e.dot(f), Err(MatrixError::ShapeMismatch));
}

#[test]
fn identity_is_neutral_on_both_sides() {
    let a = M::new(2, 3, &[1.0, -2.0, 3.0, 4.0, 5.0, -6.0]).unwrap();
    assert_eq!(M::identity(2).dot(a.clone()), Ok(a.clone()));
    assert_eq!(a.clone().dot(M::identity(3)), Ok(a));
}

#[test]
fn identity_is_neutral_for_the_square_example() {
    let a = M::new(2, 2, &[0.0, 1.0, 2.0, 3.0]).unwrap();
    let i = M::identity(2);
    assert_eq!(i.clone().dot(a.clone()).unwrap(), a);
}

#[test]
fn dot_is_not_commutative() {
    let a = M::new(2, 2, &[1.0, 2.0, 3.0, 4.0]).unwrap();
    let b = M::new(2, 2, &[0.0, 1.0, 1.0, 0.0]).unwrap();
    assert_eq!(a.clone().dot(b.clone()).unwrap().array(), &[2.0, 1.0, 4.0, 3.0]);
    assert_eq!(b.dot(a).unwrap().array(), &[3.0, 4.0, 1.0, 2.0]);
}

#[test]
fn dot_of_row_and_column() {
    let r = M::new(1, 3, &[1.0, 2.0, 3.0]).unwrap();
    let c = M::new(3, 1, &[4.0, 5.0, 6.0]).unwrap();
    assert_eq!(r.clone().dot(c.clone()).unwrap().array(), &[32.0]);
    let outer = c.dot(r).unwrap();
    assert_eq!(outer.shape(), (3, 3));
    assert_eq!(outer.array(), &[4.0, 8.0, 12.0, 5.0, 10.0, 15.0, 6.0, 12.0, 18.0]);
}

#[test]
fn dot_accumulates_in_order_from_zero() {
    // In single precision 1e8 + 1 is 1e8, so the order of the additions shows.
    let r = M::new(1, 3, &[1.0, 1.0e8, -1.0e8]).unwrap();
    let c = M::new(3, 1, &[1.0, 1.0, 1.0]).unwrap();
    assert_eq!(r.dot(c).unwrap().array(), &[0.0]);
    let r = M::new(1, 3, &[1.0e8, -1.0e8, 1.0]).unwrap();
    let c = M::new(3, 1, &[1.0, 1.0, 1.0]).unwrap();
    assert_eq!(r.dot(c).unwrap().array(), &[1.0]);
}

#[test]
fn dot_over_an_empty_inner_dimension_is_zero() {
    let a = M::new(2, 0, &[]).unwrap();
    let b = M::new(0, 3, &[]).unwrap();
    assert_eq!(a.dot(b), Ok(M::zero(2, 3)));
}

#[test]
fn dot_on_integers() {
    let a = Matrix::<u64>::new(2, 2, &[0, 1, 2, 3]).unwrap();
    let b = Matrix::<u64>::new(2, 3, &[4, 5, 6, 7, 8, 9]).unwrap();
    assert_eq!(a.clone().dot(b).unwrap().array(), &[7, 8, 9, 29, 34, 39]);
    assert_eq!(Matrix::<u64>::identity(2).dot(a.clone()), Ok(a));
}

#[test]
fn dot_keeps_length_equal_to_rows_times_cols() {
    let a = M::one(3, 4);
    let b = M::one(4, 5);
    let c = a.dot(b).unwrap();
    assert_eq!(c.shape(), (3, 5));
    assert_eq!(c.array().len(), c.rows() * c.cols());
    assert_eq!(c.array(), &[4.0; 15]);
}
