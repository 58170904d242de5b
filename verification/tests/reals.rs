use dense_matrix::matrix::Matrix;
use dense_matrix::scalar::Numeric;
use std::ops::{Add, Div, Mul, Sub};

#[derive(Clone, Copy, Debug, PartialEq, Default)]
struct Real(f64);

impl Add for Real {
    type Output = Real;

    fn add(self, other: Real) -> Real {
        Real(self.0 + other.0)
    }
}

impl Sub for Real {
    type Output = Real;

    fn sub(self, other: Real) -> Real {
        Real(self.0 - other.0)
    }
}

impl Mul for Real {
    type Output = Real;

    fn mul(self, other: Real) -> Real {
        Real(self.0 * other.0)
    }
}

impl Div for Real {
    type Output = Real;

    fn div(self, other: Real) -> Real {
        Real(self.0 / other.0)
    }
}

impl Numeric for Real {
    fn one() -> Real {
        Real(1.0)
    }
}

fn rotation_by_pi() -> Matrix<Real> {
    let pi = std::f64::consts::PI;
    Matrix::from_rows(vec![
        vec![Real(pi.cos()), Real(-(pi.sin()))],
        vec![Real(pi.sin()), Real(pi.cos())],
    ])
    .unwrap()
}

#[test]
fn rotation_by_pi_negates_a_vector() {
    let vector = Matrix::from_rows(vec![vec![Real(4.0)], vec![Real(2.0)]]).unwrap();
    let turned = rotation_by_pi().multiplication(&vector);
    assert_eq!(turned.size(), (2, 1));
    assert!((turned[0][0].0 - (-4.0)).abs() < 1e-9);
    assert!((turned[1][0].0 - (-2.0)).abs() < 1e-9);
}

#[test]
fn transposed_rotated_vector_is_a_row() {
    let vector = Matrix::from_rows(vec![vec![Real(4.0)], vec![Real(2.0)]]).unwrap();
    let turned = rotation_by_pi().multiplication(&vector);
    let flat = turned.transpose();
    assert_eq!(flat.size(), (1, 2));
    assert!((flat[0][0].0 - (-4.0)).abs() < 1e-9);
    assert!((flat[0][1].0 - (-2.0)).abs() < 1e-9);
    assert_eq!(flat[0][0], turned[0][0]);
    assert_eq!(flat[0][1], turned[1][0]);
}

#[test]
fn real_identity_has_ones_on_the_diagonal() {
    let unit: Matrix<Real> = Matrix::identity(2);
    assert_eq!(unit[0], [Real(1.0), Real(0.0)]);
    assert_eq!(unit[1], [Real(0.0), Real(1.0)]);
}

#[test]
fn real_matrices_add_and_render() {
    let a = Matrix::from_rows(vec![vec![Real(0.5), Real(1.5)]]).unwrap();
    let b = Matrix::from_rows(vec![vec![Real(0.25), Real(-1.5)]]).unwrap();
    let c = a.addition(&b);
    assert_eq!(c[0], [Real(0.75), Real(0.0)]);
    assert_eq!(c.render(), "[[Real(0.75), Real(0.0)]]");
}

#[test]
fn real_products_accumulate_in_column_order() {
    let big = 1.0e16;
    let a = Matrix::from_rows(vec![vec![Real(big), Real(1.0), Real(-big)]]).unwrap();
    let b = Matrix::from_rows(vec![vec![Real(1.0)], vec![Real(1.0)], vec![Real(1.0)]]).unwrap();
    let c = a.multiplication(&b);
    assert_eq!(c[0][0], Real(((0.0 + big) + 1.0) - big));
    assert_eq!(c[0][0], Real(0.0));
}
