use crate::arithmetic::product_is_defined;
use crate::arithmetic::product_of;
use crate::arithmetic::sum_is_defined;
use crate::arithmetic::sum_of;
use crate::matrix::Matrix;
use crate::scalar::is_zero;
use crate::scalar::Numeric;
use vstd::prelude::*;
use vstd::std_specs::ops::AddSpec;
use vstd::std_specs::ops::MulSpec;

verus! {

impl<T: Numeric> vstd::std_specs::ops::AddSpecImpl for Matrix<T> {
    /// What `+` returns is stated by `add` itself, over views.
    open spec fn obeys_add_spec() -> bool {
        false
    }

    open spec fn add_req(self, other: Matrix<T>) -> bool {
        &&& self.well_formed()
        &&& other.well_formed()
        &&& self@.rows == other@.rows
        &&& self@.cols == other@.cols
        &&& T::obeys_add_spec()
        &&& sum_is_defined(self@, other@)
    }

    open spec fn add_spec(self, other: Matrix<T>) -> Matrix<T> {
        self
    }
}

impl<T: Numeric> core::ops::Add for Matrix<T> {
    type Output = Matrix<T>;

    /// `a + b` is the cellwise sum of two matrices of one shape.
    fn add(self, other: Matrix<T>) -> (result: Matrix<T>)
        ensures
            result.well_formed(),
            result@ == sum_of(self@, other@),
    {
        self.addition(&other)
    }
}

impl<T: Numeric> vstd::std_specs::ops::MulSpecImpl for Matrix<T> {
    /// What `*` returns is stated by `mul` itself, over views.
    open spec fn obeys_mul_spec() -> bool {
        false
    }

    open spec fn mul_req(self, other: Matrix<T>) -> bool {
        &&& self.well_formed()
        &&& other.well_formed()
        &&& self@.cols == other@.rows
        &&& self@.rows * other@.cols <= usize::MAX
        &&& T::obeys_add_spec()
        &&& T::obeys_mul_spec()
        &&& forall|zero: T| #[trigger] is_zero(zero) ==> product_is_defined(self@, other@, zero)
    }

    open spec fn mul_spec(self, other: Matrix<T>) -> Matrix<T> {
        self
    }
}

impl<T: Numeric> core::ops::Mul for Matrix<T> {
    type Output = Matrix<T>;

    /// `a * b` is the matrix product.
    fn mul(self, other: Matrix<T>) -> (result: Matrix<T>)
        ensures
            result.well_formed(),
            exists|zero: T| #[trigger] is_zero(zero) && result@ == product_of(self@, other@, zero),
    {
        self.multiplication(&other)
    }
}

} // verus!
