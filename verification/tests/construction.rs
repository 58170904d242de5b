use dense_matrix::error::MatrixError;
use dense_matrix::matrix::Matrix;
use dense_matrix::scalar::Numeric;

fn cells<T: Numeric>(m: &Matrix<T>) -> Vec<Vec<T>> {
    let (rows, cols) = m.size();
    let mut out = Vec::new();
    for i in 0..rows {
        let mut row = Vec::new();
        for j in 0..cols {
            row.push(m[i][j]);
        }
        out.push(row);
    }
    out
}

#[test]
fn new_is_zero_filled() {
    let m: Matrix<i32> = Matrix::new(2, 3);
    assert_eq!(m.size(), (2, 3));
    assert_eq!(cells(&m), vec![vec![0, 0, 0], vec![0, 0, 0]]);
}

#[test]
fn new_accepts_empty_shapes() {
    let a: Matrix<u8> = Matrix::new(0, 0);
    assert_eq!(a.size(), (0, 0));
    let b: Matrix<u8> = Matrix::new(0, 4);
    assert_eq!(b.size(), (0, 4));
    let c: Matrix<u8> = Matrix::new(4, 0);
    assert_eq!(c.size(), (4, 0));
    assert_eq!(c[3].len(), 0);
}

#[test]
fn identity_of_order_three() {
    let m: Matrix<i32> = Matrix::identity(3);
    assert_eq!(m.size(), (3, 3));
    assert_eq!(cells(&m), vec![vec![1, 0, 0], vec![0, 1, 0], vec![0, 0, 1]]);
    assert_eq!(m.render(), "[[1, 0, 0], [0, 1, 0], [0, 0, 1]]");
}

#[test]
fn identity_of_order_zero_is_empty() {
    let m: Matrix<i64> = Matrix::identity(0);
    assert_eq!(m.size(), (0, 0));
    assert_eq!(m.render(), "[]");
}

#[test]
fn identity_of_order_one() {
    let m: Matrix<u128> = Matrix::identity(1);
    assert_eq!(cells(&m), vec![vec![1u128]]);
}

#[test]
fn from_rows_reads_row_by_row() {
    let m = Matrix::from_rows(vec![vec![1i16, 2, 3], vec![4, 5, 6]]).unwrap();
    assert_eq!(m.size(), (2, 3));
    assert_eq!(m[0], [1, 2, 3]);
    assert_eq!(m[1], [4, 5, 6]);
    assert_eq!(m[1][0], 4);
}

#[test]
fn from_rows_takes_the_first_row_as_the_width() {
    let m = Matrix::from_rows(vec![vec![7u8], vec![8], vec![9]]).unwrap();
    assert_eq!(m.size(), (3, 1));
    assert_eq!(cells(&m), vec![vec![7], vec![8], vec![9]]);
}

#[test]
fn from_rows_accepts_rows_without_cells() {
    let empty: Vec<i32> = Vec::new();
    let m = Matrix::from_rows(vec![empty.clone(), empty]).unwrap();
    assert_eq!(m.size(), (2, 0));
}

#[test]
fn from_rows_rejects_a_short_row() {
    let r = Matrix::from_rows(vec![vec![1i32, 2], vec![3]]);
    assert!(matches!(r, Err(MatrixError::ShapeMismatch)));
}

#[test]
fn from_rows_rejects_a_long_row() {
    let r = Matrix::from_rows(vec![vec![1i32, 2], vec![3, 4], vec![5, 6, 7]]);
    assert!(matches!(r, Err(MatrixError::ShapeMismatch)));
}

#[test]
fn storage_has_one_scalar_per_cell() {
    let m: Matrix<u32> = Matrix::new(5, 7);
    let (rows, cols) = m.size();
    let mut seen = 0;
    for i in 0..rows {
        seen += m[i].len();
    }
    assert_eq!(seen, rows * cols);
    let t = m.transpose();
    assert_eq!(t.size(), (7, 5));
    let mut seen = 0;
    for i in 0..7 {
        seen += t[i].len();
    }
    assert_eq!(seen, 35);
}

#[test]
fn set_replaces_one_cell() {
    let mut m: Matrix<i32> = Matrix::new(2, 2);
    m.set(1, 0, 9);
    assert_eq!(cells(&m), vec![vec![0, 0], vec![9, 0]]);
    m.set(1, 0, -4);
    m.set(0, 1, 5);
    assert_eq!(cells(&m), vec![vec![0, 5], vec![-4, 0]]);
}

#[test]
fn index_mut_writes_through_the_row() {
    let mut m = Matrix::from_rows(vec![vec![1u64, 2], vec![3, 4], vec![5, 6]]).unwrap();
    m.index_mut(1)[1] = 40;
    m.index_mut(2)[0] = 50;
    assert_eq!(cells(&m), vec![vec![1, 2], vec![3, 40], vec![50, 6]]);
    assert_eq!(m.index_mut(0).len(), 2);
    assert_eq!(m.size(), (3, 2));
}

#[test]
fn one_is_one_for_every_integer_width() {
    assert_eq!(<u8 as Numeric>::one(), 1u8);
    assert_eq!(<u16 as Numeric>::one(), 1u16);
    assert_eq!(<u32 as Numeric>::one(), 1u32);
    assert_eq!(<u64 as Numeric>::one(), 1u64);
    assert_eq!(<u128 as Numeric>::one(), 1u128);
    assert_eq!(<i8 as Numeric>::one(), 1i8);
    assert_eq!(<i16 as Numeric>::one(), 1i16);
    assert_eq!(<i32 as Numeric>::one(), 1i32);
    assert_eq!(<i64 as Numeric>::one(), 1i64);
    assert_eq!(<i128 as Numeric>::one(), 1i128);
}

#[test]
fn filled_puts_the_value_in_every_cell() {
    let m: Matrix<i16> = Matrix::filled(2, 3, -7);
    assert_eq!(m.size(), (2, 3));
    assert_eq!(cells(&m), vec![vec![-7, -7, -7], vec![-7, -7, -7]]);
    let e: Matrix<i16> = Matrix::filled(0, 3, 1);
    assert_eq!(e.size(), (0, 3));
}

#[test]
fn clone_has_storage_of_its_own() {
    let a = Matrix::from_rows(vec![vec![1i32, 2], vec![3, 4]]).unwrap();
    let mut b = a.clone();
    assert_eq!(cells(&b), cells(&a));
    b.set(0, 0, 100);
    b.index_mut(1)[1] = 400;
    assert_eq!(cells(&a), vec![vec![1, 2], vec![3, 4]]);
    assert_eq!(cells(&b), vec![vec![100, 2], vec![3, 400]]);
}

#[test]
fn results_do_not_alias_their_operands() {
    let a = Matrix::from_rows(vec![vec![1i32, 2], vec![3, 4]]).unwrap();
    let zero: Matrix<i32> = Matrix::new(2, 2);
    let mut sum = a.addition(&zero);
    sum.set(0, 0, 9);
    let mut turned = a.transpose();
    turned.set(1, 1, 9);
    let unit: Matrix<i32> = Matrix::identity(2);
    let mut product = a.multiplication(&unit);
    product.set(1, 0, 9);
    assert_eq!(cells(&a), vec![vec![1, 2], vec![3, 4]]);
    assert_eq!(cells(&zero), vec![vec![0, 0], vec![0, 0]]);
    assert_eq!(cells(&unit), vec![vec![1, 0], vec![0, 1]]);
    assert_eq!(cells(&sum), vec![vec![9, 2], vec![3, 4]]);
    assert_eq!(cells(&turned), vec![vec![1, 3], vec![2, 9]]);
    assert_eq!(cells(&product), vec![vec![1, 2], vec![9, 4]]);
}
