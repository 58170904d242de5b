use crate::algebra::lemma_dot_identity_left;
use crate::algebra::lemma_dot_identity_right;
use crate::algebra::lemma_plus_commutes;
use crate::algebra::lemma_plus_zero;
use crate::algebra::lemma_times_associates;
use crate::algebra::lemma_times_identity_left;
use crate::algebra::lemma_times_identity_right;
use crate::algebra::lemma_transposed_twice;
use crate::arithmetic::is_identity;
use crate::arithmetic::product_is_defined;
use crate::arithmetic::product_of;
use crate::arithmetic::sum_is_defined;
use crate::arithmetic::sum_of;
use crate::grid::lemma_equal_by_cells;
use crate::grid::Grid;
use crate::integers::lemma_product_over_integers;
use crate::integers::lemma_sum_over_integers;
use crate::integers::lemma_values_are_faithful;
use crate::integers::product_is_representable;
use crate::integers::sum_is_representable;
use crate::integers::values;
use crate::integral::Integral;
use crate::matrix::Matrix;
use crate::scalar::is_zero;
use crate::scalar::Numeric;
use vstd::prelude::*;

verus! {

/// An integral type has one zero.
pub proof fn lemma_zero_is_unique<T: Integral>(y: T, z: T)
    requires
        is_zero(y),
        is_zero(z),
    ensures
        y == z,
{
    T::lemma_units(y);
    T::lemma_units(z);
    T::lemma_value_is_faithful(y, z);
}

/// The values of a grid of zeros are zeros, and the values of an identity
/// are the integer identity.
pub proof fn lemma_values_of_units<T: Integral>(unit: Grid<T>, zero: T)
    requires
        is_zero(zero),
    ensures
        values(Grid::constant(unit.rows, unit.cols, zero)) == Grid::zero(unit.rows, unit.cols),
        is_identity(unit, zero) ==> values(unit) == Grid::identity(unit.rows),
{
    T::lemma_units(zero);
    lemma_equal_by_cells(
        values(Grid::constant(unit.rows, unit.cols, zero)),
        Grid::zero(unit.rows, unit.cols),
    );
    if is_identity(unit, zero) {
        assert forall|i: int, j: int| 0 <= i < unit.rows && 0 <= j < unit.cols implies values(
            unit,
        ).at(i, j) == Grid::identity(unit.rows).at(i, j) by {
            T::lemma_units(unit.at(i, j));
        }
        lemma_equal_by_cells(values(unit), Grid::identity(unit.rows));
    }
}

/// Every cell of a grid of integral scalars has a representable value.
pub proof fn lemma_values_are_representable<T: Integral>(a: Grid<T>, i: int, j: int)
    requires
        0 <= i < a.rows,
        0 <= j < a.cols,
    ensures
        values(a).at(i, j) == a.at(i, j).value(),
        T::representable(values(a).at(i, j)),
{
    T::lemma_value_is_faithful(a.at(i, j), a.at(i, j));
}

/// Adding the zero matrix of the same shape to a matrix of integral
/// scalars is always defined and gives the matrix back.
pub proof fn law_addition_identity<T: Integral>(a: Matrix<T>, zero: T)
    requires
        a.well_formed(),
        is_zero(zero),
    ensures
        sum_is_defined(a@, Grid::constant(a@.rows, a@.cols, zero)),
        sum_of(a@, Grid::constant(a@.rows, a@.cols, zero)) == a@,
{
    let zeros = Grid::constant(a@.rows, a@.cols, zero);
    let va = values(a@);
    lemma_values_of_units(a@, zero);
    assert forall|i: int, j: int|
        #![trigger va.at(i, j)]
        0 <= i < va.rows && 0 <= j < va.cols implies T::representable(
        va.at(i, j) + values(zeros).at(i, j),
    ) by {
        lemma_values_are_representable(a@, i, j);
    }
    lemma_sum_over_integers(a@, zeros);
    lemma_plus_zero(va);
    lemma_values_are_faithful(sum_of(a@, zeros), a@);
}

/// Multiplying a square matrix of integral scalars by the identity of its
/// order, on either side, is always defined and gives the matrix back.
pub proof fn law_multiplicative_identity<T: Integral>(a: Matrix<T>, unit: Matrix<T>, zero: T)
    requires
        a.well_formed(),
        a@.rows == a@.cols,
        is_zero(zero),
        is_identity(unit@, zero),
        unit@.rows == a@.rows,
    ensures
        product_is_defined(a@, unit@, zero),
        product_of(a@, unit@, zero) == a@,
        product_is_defined(unit@, a@, zero),
        product_of(unit@, a@, zero) == a@,
{
    let n = a@.rows;
    let va = values(a@);
    let one = Grid::identity(n);
    lemma_values_of_units(unit@, zero);
    T::lemma_units_are_representable();
    assert forall|i: int, j: int, t: int| 0 <= i < n && 0 <= j < n && 0 <= t < n implies T::representable(
        #[trigger] va.at(i, t) * #[trigger] one.at(t, j),
    ) by {
        lemma_values_are_representable(a@, i, t);
        let x = va.at(i, t);
        let u = one.at(t, j);
        assert(x * u == x || x * u == 0) by (nonlinear_arith)
            requires
                u == 1 || u == 0,
        ;
    }
    assert forall|i: int, j: int, t: int| 0 <= i < n && 0 <= j < n && 0 <= t < n implies T::representable(
        #[trigger] va.dot(one, i, j, t) + va.at(i, t) * one.at(t, j),
    ) by {
        lemma_values_are_representable(a@, i, j);
        lemma_dot_identity_right(va, i, j, t + 1);
    }
    assert forall|i: int, j: int, t: int| 0 <= i < n && 0 <= j < n && 0 <= t < n implies T::representable(
        #[trigger] one.at(i, t) * #[trigger] va.at(t, j),
    ) by {
        lemma_values_are_representable(a@, t, j);
        let x = va.at(t, j);
        let u = one.at(i, t);
        assert(u * x == x || u * x == 0) by (nonlinear_arith)
            requires
                u == 1 || u == 0,
        ;
    }
    assert forall|i: int, j: int, t: int| 0 <= i < n && 0 <= j < n && 0 <= t < n implies T::representable(
        #[trigger] one.dot(va, i, j, t) + one.at(i, t) * va.at(t, j),
    ) by {
        lemma_values_are_representable(a@, i, j);
        lemma_dot_identity_left(va, i, j, t + 1);
    }
    assert(product_is_representable::<T>(va, one));
    assert(product_is_representable::<T>(one, va));
    lemma_product_over_integers(a@, unit@, zero);
    lemma_product_over_integers(unit@, a@, zero);
    lemma_times_identity_right(va);
    lemma_times_identity_left(va);
    lemma_values_are_faithful(product_of(a@, unit@, zero), a@);
    lemma_values_are_faithful(product_of(unit@, a@, zero), a@);
}

/// Transposing a matrix twice gives the matrix back, whatever its scalars.
pub proof fn law_transpose_involution<T: Numeric>(a: Matrix<T>)
    requires
        a.well_formed(),
    ensures
        a@.transposed().transposed() == a@,
{
    lemma_transposed_twice(a@);
}

/// Three matrices of integral scalars and compatible shapes have one
/// product, however it is bracketed, wherever both bracketings are defined.
pub proof fn law_multiplication_associative<T: Integral>(
    a: Matrix<T>,
    b: Matrix<T>,
    c: Matrix<T>,
    zero: T,
)
    requires
        a.well_formed(),
        b.well_formed(),
        c.well_formed(),
        a@.cols == b@.rows,
        b@.cols == c@.rows,
        is_zero(zero),
        product_is_defined(a@, b@, zero),
        product_is_defined(product_of(a@, b@, zero), c@, zero),
        product_is_defined(b@, c@, zero),
        product_is_defined(a@, product_of(b@, c@, zero), zero),
    ensures
        product_of(product_of(a@, b@, zero), c@, zero) == product_of(
            a@,
            product_of(b@, c@, zero),
            zero,
        ),
{
    let ab = product_of(a@, b@, zero);
    let bc = product_of(b@, c@, zero);
    lemma_product_over_integers(a@, b@, zero);
    lemma_product_over_integers(ab, c@, zero);
    lemma_product_over_integers(b@, c@, zero);
    lemma_product_over_integers(a@, bc, zero);
    lemma_times_associates(values(a@), values(b@), values(c@));
    lemma_values_are_faithful(product_of(ab, c@, zero), product_of(a@, bc, zero));
}

/// Two matrices of integral scalars and one shape can be added in either
/// order: one sum is defined when the other is, and they are the same.
pub proof fn law_addition_commutative<T: Integral>(a: Matrix<T>, b: Matrix<T>)
    requires
        a.well_formed(),
        b.well_formed(),
        a@.rows == b@.rows,
        a@.cols == b@.cols,
    ensures
        sum_is_defined(a@, b@) <==> sum_is_defined(b@, a@),
        sum_is_defined(a@, b@) ==> sum_of(a@, b@) == sum_of(b@, a@),
{
    let va = values(a@);
    let vb = values(b@);
    lemma_sum_over_integers(a@, b@);
    lemma_sum_over_integers(b@, a@);
    if sum_is_representable::<T>(va, vb) {
        assert forall|i: int, j: int|
            #![trigger vb.at(i, j)]
            0 <= i < vb.rows && 0 <= j < vb.cols implies T::representable(vb.at(i, j) + va.at(i, j)) by {
            assert(T::representable(va.at(i, j) + vb.at(i, j)));
        }
    }
    if sum_is_representable::<T>(vb, va) {
        assert forall|i: int, j: int|
            #![trigger va.at(i, j)]
            0 <= i < va.rows && 0 <= j < va.cols implies T::representable(va.at(i, j) + vb.at(i, j)) by {
            assert(T::representable(vb.at(i, j) + va.at(i, j)));
        }
    }
    if sum_is_defined(a@, b@) {
        lemma_plus_commutes(va, vb);
        lemma_values_are_faithful(sum_of(a@, b@), sum_of(b@, a@));
    }
}

} // verus!
