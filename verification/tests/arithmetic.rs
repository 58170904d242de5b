use dense_matrix::error::MatrixError;
use dense_matrix::matrix::Matrix;

fn m32(rows: Vec<Vec<i32>>) -> Matrix<i32> {
    Matrix::from_rows(rows).unwrap()
}

fn same(a: &Matrix<i32>, b: &Matrix<i32>) -> bool {
    if a.size() != b.size() {
        return false;
    }
    for i in 0..a.size().0 {
        if a[i] != b[i] {
            return false;
        }
    }
    true
}

#[test]
fn addition_of_two_by_two() {
    let a = m32(vec![vec![1, 2], vec![3, 4]]);
    let b = m32(vec![vec![5, 6], vec![7, 8]]);
    let c = a.addition(&b);
    assert_eq!(c.size(), (2, 2));
    assert_eq!(c[0], [6, 8]);
    assert_eq!(c[1], [10, 12]);
}

#[test]
fn plus_operator_adds() {
    let a = m32(vec![vec![1, 2], vec![3, 4]]);
    let b = m32(vec![vec![5, 6], vec![7, 8]]);
    let c = a + b;
    assert!(same(&c, &m32(vec![vec![6, 8], vec![10, 12]])));
}

#[test]
fn addition_leaves_operands_alone() {
    let a = m32(vec![vec![1, -2, 3]]);
    let b = m32(vec![vec![10, 20, 30]]);
    let c = a.addition(&b);
    assert_eq!(a[0], [1, -2, 3]);
    assert_eq!(b[0], [10, 20, 30]);
    assert_eq!(c[0], [11, 18, 33]);
}

#[test]
fn adding_zero_changes_nothing() {
    let a = m32(vec![vec![4, -7, 0], vec![9, 2, -1]]);
    let zero: Matrix<i32> = Matrix::new(2, 3);
    assert!(same(&a.addition(&zero), &a));
    assert!(same(&zero.addition(&a), &a));
}

#[test]
fn adding_zero_at_the_limits_of_the_type() {
    let a = Matrix::from_rows(vec![vec![i8::MIN, i8::MAX]]).unwrap();
    let zero: Matrix<i8> = Matrix::new(1, 2);
    let c = a.addition(&zero);
    assert_eq!(c[0], [i8::MIN, i8::MAX]);
}

#[test]
fn addition_commutes() {
    let a = m32(vec![vec![1, 2], vec![3, 4], vec![5, 6]]);
    let b = m32(vec![vec![-9, 8], vec![7, -6], vec![0, 100]]);
    assert!(same(&a.addition(&b), &b.addition(&a)));
    assert!(same(&a.addition(&b), &m32(vec![vec![-8, 10], vec![10, -2], vec![5, 106]])));
}

#[test]
fn multiplication_of_two_by_three_and_three_by_two() {
    let a = m32(vec![vec![1, 2, 3], vec![4, 5, 6]]);
    let b = m32(vec![vec![7, 8], vec![9, 10], vec![11, 12]]);
    let c = a.multiplication(&b);
    assert_eq!(c.size(), (2, 2));
    assert_eq!(c[0], [58, 64]);
    assert_eq!(c[1], [139, 154]);
    let d = b.multiplication(&a);
    assert_eq!(d.size(), (3, 3));
    assert_eq!(d[0], [39, 54, 69]);
    assert_eq!(d[1], [49, 68, 87]);
    assert_eq!(d[2], [59, 82, 105]);
}

#[test]
fn star_operator_multiplies() {
    let a = m32(vec![vec![1, 2], vec![3, 4]]);
    let b = m32(vec![vec![0, 1], vec![1, 0]]);
    let c = a * b;
    assert!(same(&c, &m32(vec![vec![2, 1], vec![4, 3]])));
}

#[test]
fn multiplication_by_a_column_vector() {
    let rotation = m32(vec![vec![-1, 0], vec![0, -1]]);
    let vector = m32(vec![vec![4], vec![2]]);
    let turned = rotation.multiplication(&vector);
    assert_eq!(turned.size(), (2, 1));
    assert_eq!(turned[0], [-4]);
    assert_eq!(turned[1], [-2]);
    let flat = turned.transpose();
    assert_eq!(flat.size(), (1, 2));
    assert_eq!(flat[0], [-4, -2]);
}

#[test]
fn multiplication_with_no_inner_cells_gives_zeros() {
    let a: Matrix<i32> = Matrix::new(2, 0);
    let b: Matrix<i32> = Matrix::new(0, 3);
    let c = a.multiplication(&b);
    assert_eq!(c.size(), (2, 3));
    assert_eq!(c[0], [0, 0, 0]);
    assert_eq!(c[1], [0, 0, 0]);
}

#[test]
fn identity_is_neutral_on_both_sides() {
    let a = m32(vec![vec![2, -3, 5], vec![7, 11, -13], vec![17, 19, 23]]);
    let unit: Matrix<i32> = Matrix::identity(3);
    assert!(same(&a.multiplication(&unit), &a));
    assert!(same(&unit.multiplication(&a), &a));
}

#[test]
fn identity_is_neutral_at_the_limits_of_the_type() {
    let a = Matrix::from_rows(vec![vec![u8::MAX, 0], vec![1, u8::MAX]]).unwrap();
    let unit: Matrix<u8> = Matrix::identity(2);
    let right = a.multiplication(&unit);
    let left = unit.multiplication(&a);
    assert_eq!(right[0], [255, 0]);
    assert_eq!(right[1], [1, 255]);
    assert_eq!(left[0], [255, 0]);
    assert_eq!(left[1], [1, 255]);
}

#[test]
fn multiplication_associates() {
    let a = m32(vec![vec![1, 2, 3], vec![4, 5, 6]]);
    let b = m32(vec![vec![1, 0], vec![-2, 3], vec![4, -5]]);
    let c = m32(vec![vec![2, 1, 0, -1], vec![3, -2, 1, 4]]);
    let left = a.multiplication(&b).multiplication(&c);
    let right = a.multiplication(&b.multiplication(&c));
    assert_eq!(left.size(), (2, 4));
    assert!(same(&left, &right));
    assert!(same(&left, &m32(vec![vec![-9, 27, -9, -45], vec![-9, 48, -15, -78]])));
}

#[test]
fn multiplication_does_not_commute() {
    let a = m32(vec![vec![1, 2], vec![3, 4]]);
    let b = m32(vec![vec![0, 1], vec![1, 0]]);
    assert!(!same(&a.multiplication(&b), &b.multiplication(&a)));
}

#[test]
fn transpose_exchanges_rows_and_columns() {
    let a = m32(vec![vec![1, 2, 3], vec![4, 5, 6]]);
    let t = a.transpose();
    assert_eq!(t.size(), (3, 2));
    assert_eq!(t[0], [1, 4]);
    assert_eq!(t[1], [2, 5]);
    assert_eq!(t[2], [3, 6]);
    assert_eq!(a[0], [1, 2, 3]);
}

#[test]
fn transpose_twice_is_the_matrix() {
    let a = m32(vec![vec![1, 2, 3], vec![4, 5, 6]]);
    assert!(same(&a.transpose().transpose(), &a));
    let empty: Matrix<i32> = Matrix::new(0, 3);
    let back = empty.transpose().transpose();
    assert_eq!(empty.transpose().size(), (3, 0));
    assert_eq!(back.size(), (0, 3));
}

#[test]
fn incompatible_factors_are_a_shape_mismatch() {
    let a = m32(vec![vec![1, 2, 3], vec![4, 5, 6]]);
    let b = m32(vec![vec![1, 2], vec![3, 4]]);
    assert!(matches!(a.try_multiplication(&b), Err(MatrixError::ShapeMismatch)));
}

#[test]
fn compatible_factors_multiply() {
    let a = m32(vec![vec![1, 2], vec![3, 4]]);
    let b = m32(vec![vec![1, 2, 3], vec![4, 5, 6]]);
    let c = a.try_multiplication(&b).unwrap();
    assert!(same(&c, &m32(vec![vec![9, 12, 15], vec![19, 26, 33]])));
}

#[test]
fn summands_of_different_shapes_are_a_shape_mismatch() {
    let a = m32(vec![vec![1, 2, 3], vec![4, 5, 6]]);
    let b = m32(vec![vec![1, 2], vec![3, 4], vec![5, 6]]);
    assert!(matches!(a.try_addition(&b), Err(MatrixError::ShapeMismatch)));
    let c = m32(vec![vec![1, 2, 3]]);
    assert!(matches!(a.try_addition(&c), Err(MatrixError::ShapeMismatch)));
}

#[test]
fn summands_of_one_shape_add() {
    let a = m32(vec![vec![1, 2], vec![3, 4]]);
    let b = m32(vec![vec![5, 6], vec![7, 8]]);
    let c = a.try_addition(&b).unwrap();
    assert!(same(&c, &m32(vec![vec![6, 8], vec![10, 12]])));
}

#[test]
fn unsigned_and_wide_scalars_multiply() {
    let a = Matrix::from_rows(vec![vec![1u64 << 32, 2], vec![0, 3]]).unwrap();
    let b = Matrix::from_rows(vec![vec![1u64 << 31, 1], vec![5, 7]]).unwrap();
    let c = a.multiplication(&b);
    assert_eq!(c[0], [(1u64 << 63) + 10, (1u64 << 32) + 14]);
    assert_eq!(c[1], [15, 21]);
    let d = Matrix::from_rows(vec![vec![i128::MAX - 1]]).unwrap();
    let e = Matrix::from_rows(vec![vec![1i128]]).unwrap();
    assert_eq!(d.addition(&e)[0], [i128::MAX]);
}
