use crate::error::MatrixError;
use crate::grid::lemma_equal_by_cells;
use crate::grid::Grid;
use crate::matrix::Matrix;
use crate::scalar::is_one;
use crate::scalar::is_zero;
use crate::scalar::Numeric;
use vstd::prelude::*;
use vstd::std_specs::ops::AddSpec;
use vstd::std_specs::ops::MulSpec;

verus! {

/// The scalar type's `+` is defined on every pair of cells of `a` and `b`.
pub open spec fn sum_is_defined<T: Numeric>(a: Grid<T>, b: Grid<T>) -> bool {
    forall|i: int, j: int|
        0 <= i < a.rows && 0 <= j < a.cols ==> (#[trigger] a.at(i, j)).add_req(b.at(i, j))
}

/// The cellwise sum under the scalar type's `+`; it has the shape of `a`.
pub open spec fn sum_of<T: Numeric>(a: Grid<T>, b: Grid<T>) -> Grid<T> {
    Grid::from_fn(a.rows, a.cols, |i: int, j: int| a.at(i, j).add_spec(b.at(i, j)))
}

/// Row `i` of `a` times column `j` of `b`, taken over the first `k` terms:
/// starting from `zero`, the products `a[i][t] * b[t][j]` are added one
/// after another in the order of `t`.
pub open spec fn accumulated<T: Numeric>(
    a: Grid<T>,
    b: Grid<T>,
    i: int,
    j: int,
    k: int,
    zero: T,
) -> T
    decreases k,
{
    if k <= 0 {
        zero
    } else {
        accumulated(a, b, i, j, k - 1, zero).add_spec(a.at(i, k - 1).mul_spec(b.at(k - 1, j)))
    }
}

/// The scalar type's `*` and `+` are defined at every step of every cell of
/// the product of `a` and `b` accumulated from `zero`.
pub open spec fn product_is_defined<T: Numeric>(a: Grid<T>, b: Grid<T>, zero: T) -> bool {
    &&& forall|i: int, j: int, t: int|
        0 <= i < a.rows && 0 <= j < b.cols && 0 <= t < a.cols ==> (#[trigger] a.at(i, t)).mul_req(
            #[trigger] b.at(t, j),
        )
    &&& forall|i: int, j: int, t: int|
        0 <= i < a.rows && 0 <= j < b.cols && 0 <= t < a.cols ==> (#[trigger] accumulated(
            a,
            b,
            i,
            j,
            t,
            zero,
        )).add_req(a.at(i, t).mul_spec(b.at(t, j)))
}

/// The matrix product under the scalar type's `*` and `+`, each cell
/// accumulated from `zero`.
pub open spec fn product_of<T: Numeric>(a: Grid<T>, b: Grid<T>, zero: T) -> Grid<T> {
    Grid::from_fn(
        a.rows,
        b.cols,
        |i: int, j: int| accumulated(a, b, i, j, a.cols as int, zero),
    )
}

/// A square grid with a one of the type in every diagonal cell and `zero`
/// in every other.
pub open spec fn is_identity<T: Numeric>(grid: Grid<T>, zero: T) -> bool {
    &&& grid.rows == grid.cols
    &&& forall|i: int, j: int|
        0 <= i < grid.rows && 0 <= j < grid.cols ==> (if i == j {
            is_one(#[trigger] grid.at(i, j))
        } else {
            grid.at(i, j) == zero
        })
}

/// Whether this library can invert a matrix. It cannot: inversion is
/// declared for the sake of the interface and left without an algorithm.
pub open spec fn inversion_is_provided() -> bool {
    false
}

impl<T: Numeric> Matrix<T> {
    /// The matrix product of `self` and `matrix`.
    ///
    /// Each cell starts as the scalar type's default and takes up one
    /// product after another, in column order of `self`. The scalar type
    /// must keep to the specifications of its `*` and `+`, since every sum
    /// builds on a product. Factors whose inner sizes differ are a fault of
    /// the caller: verified callers are held to it by the precondition, and
    /// any other caller is stopped on entry.
    pub fn multiplication(&self, matrix: &Matrix<T>) -> (result: Matrix<T>)
        requires
            self.well_formed(),
            matrix.well_formed(),
            self@.cols == matrix@.rows,
            self@.rows * matrix@.cols <= usize::MAX,
            T::obeys_add_spec(),
            T::obeys_mul_spec(),
            forall|zero: T| #[trigger] is_zero(zero) ==> product_is_defined(self@, matrix@, zero),
        ensures
            result.well_formed(),
            exists|zero: T| #[trigger]
                is_zero(zero) && result@ == product_of(self@, matrix@, zero),
    {
        let (rows, inner) = self.size();
        let (other_rows, cols) = matrix.size();
        vstd::pervasive::runtime_assert(inner == other_rows);
        let zero = T::default();
        assert(is_zero(zero));
        let mut result: Matrix<T> = Matrix::filled(rows, cols, zero);
        for i in 0..rows
            invariant
                self.well_formed(),
                matrix.well_formed(),
                result.well_formed(),
                self@.rows == rows,
                self@.cols == inner,
                matrix@.rows == inner,
                matrix@.cols == cols,
                result@.rows == rows,
                result@.cols == cols,
                T::obeys_add_spec(),
                T::obeys_mul_spec(),
                product_is_defined(self@, matrix@, zero),
                forall|a: int, b: int|
                    0 <= a < rows && 0 <= b < cols ==> #[trigger] result@.at(a, b) == (if a < i {
                        accumulated(self@, matrix@, a, b, inner as int, zero)
                    } else {
                        zero
                    }),
        {
            for j in 0..cols
                invariant
                    self.well_formed(),
                    matrix.well_formed(),
                    result.well_formed(),
                    i < rows,
                    self@.rows == rows,
                    self@.cols == inner,
                    matrix@.rows == inner,
                    matrix@.cols == cols,
                    result@.rows == rows,
                    result@.cols == cols,
                    T::obeys_add_spec(),
                    T::obeys_mul_spec(),
                    product_is_defined(self@, matrix@, zero),
                    forall|a: int, b: int|
                        0 <= a < rows && 0 <= b < cols ==> #[trigger] result@.at(a, b) == (if a < i
                            || (a == i && b < j) {
                            accumulated(self@, matrix@, a, b, inner as int, zero)
                        } else {
                            zero
                        }),
            {
                for k in 0..inner
                    invariant
                        self.well_formed(),
                        matrix.well_formed(),
                        result.well_formed(),
                        i < rows,
                        j < cols,
                        self@.rows == rows,
                        self@.cols == inner,
                        matrix@.rows == inner,
                        matrix@.cols == cols,
                        result@.rows == rows,
                        result@.cols == cols,
                        T::obeys_add_spec(),
                        T::obeys_mul_spec(),
                        product_is_defined(self@, matrix@, zero),
                        forall|a: int, b: int|
                            0 <= a < rows && 0 <= b < cols ==> #[trigger] result@.at(a, b) == (if a
                                < i || (a == i && b < j) {
                                accumulated(self@, matrix@, a, b, inner as int, zero)
                            } else if a == i && b == j {
                                accumulated(self@, matrix@, a, b, k as int, zero)
                            } else {
                                zero
                            }),
                {
                    let sum = result[i][j];
                    let left = self[i][k];
                    let right = matrix[k][j];
                    proof {
                        assert(sum == result@.at(i as int, j as int));
                        assert(left == self@.at(i as int, k as int));
                        assert(right == matrix@.at(k as int, j as int));
                        let next = accumulated(self@, matrix@, i as int, j as int, k + 1, zero);
                        assert(next == sum.add_spec(left.mul_spec(right)));
                    }
                    result.set(i, j, sum + left * right);
                }
            }
        }
        proof {
            lemma_equal_by_cells(result@, product_of(self@, matrix@, zero));
        }
        result
    }

    /// The matrix product of `self` and `matrix`, or a shape mismatch when
    /// `self` has not as many columns as `matrix` has rows.
    pub fn try_multiplication(&self, matrix: &Matrix<T>) -> (result: Result<
        Matrix<T>,
        MatrixError,
    >)
        requires
            self.well_formed(),
            matrix.well_formed(),
            T::obeys_add_spec(),
            T::obeys_mul_spec(),
            self@.cols == matrix@.rows ==> self@.rows * matrix@.cols <= usize::MAX && forall|
                zero: T,
            | #[trigger] is_zero(zero) ==> product_is_defined(self@, matrix@, zero),
        ensures
            result is Ok <==> self@.cols == matrix@.rows,
            result matches Ok(product) ==> product.well_formed() && exists|zero: T| #[trigger]
                is_zero(zero) && product@ == product_of(self@, matrix@, zero),
            result matches Err(error) ==> error == MatrixError::ShapeMismatch,
    {
        if self.size().1 != matrix.size().0 {
            return Err(MatrixError::ShapeMismatch);
        }
        Ok(self.multiplication(matrix))
    }

    /// The cellwise sum of `self` and `matrix`, for a scalar type that
    /// keeps to the specification of its `+`. Summands of different shapes
    /// are a fault of the caller: verified callers are held to it by the
    /// precondition, and any other caller is stopped on entry.
    pub fn addition(&self, matrix: &Matrix<T>) -> (result: Matrix<T>)
        requires
            self.well_formed(),
            matrix.well_formed(),
            self@.rows == matrix@.rows,
            self@.cols == matrix@.cols,
            T::obeys_add_spec(),
            sum_is_defined(self@, matrix@),
        ensures
            result.well_formed(),
            result@ == sum_of(self@, matrix@),
    {
        proof {
            self.lemma_view_is_well_formed();
        }
        let (rows, cols) = self.size();
        let (other_rows, other_cols) = matrix.size();
        vstd::pervasive::runtime_assert(rows == other_rows && cols == other_cols);
        let zero = T::default();
        let mut result: Matrix<T> = Matrix::filled(rows, cols, zero);
        for i in 0..rows
            invariant
                self.well_formed(),
                matrix.well_formed(),
                result.well_formed(),
                self@.rows == rows,
                self@.cols == cols,
                matrix@.rows == rows,
                matrix@.cols == cols,
                result@.rows == rows,
                result@.cols == cols,
                T::obeys_add_spec(),
                sum_is_defined(self@, matrix@),
                forall|a: int, b: int|
                    0 <= a < rows && 0 <= b < cols ==> #[trigger] result@.at(a, b) == (if a < i {
                        self@.at(a, b).add_spec(matrix@.at(a, b))
                    } else {
                        zero
                    }),
        {
            for j in 0..cols
                invariant
                    self.well_formed(),
                    matrix.well_formed(),
                    result.well_formed(),
                    i < rows,
                    self@.rows == rows,
                    self@.cols == cols,
                    matrix@.rows == rows,
                    matrix@.cols == cols,
                    result@.rows == rows,
                    result@.cols == cols,
                    T::obeys_add_spec(),
                    sum_is_defined(self@, matrix@),
                    forall|a: int, b: int|
                        0 <= a < rows && 0 <= b < cols ==> #[trigger] result@.at(a, b) == (if a < i
                            || (a == i && b < j) {
                            self@.at(a, b).add_spec(matrix@.at(a, b))
                        } else {
                            zero
                        }),
            {
                let left = self[i][j];
                let right = matrix[i][j];
                proof {
                    assert(left == self@.at(i as int, j as int));
                    assert(right == matrix@.at(i as int, j as int));
                }
                result.set(i, j, left + right);
            }
        }
        proof {
            lemma_equal_by_cells(result@, sum_of(self@, matrix@));
        }
        result
    }

    /// The cellwise sum of `self` and `matrix`, or a shape mismatch when
    /// their shapes differ.
    pub fn try_addition(&self, matrix: &Matrix<T>) -> (result: Result<Matrix<T>, MatrixError>)
        requires
            self.well_formed(),
            matrix.well_formed(),
            T::obeys_add_spec(),
            self@.rows == matrix@.rows && self@.cols == matrix@.cols ==> sum_is_defined(
                self@,
                matrix@,
            ),
        ensures
            result is Ok <==> self@.rows == matrix@.rows && self@.cols == matrix@.cols,
            result matches Ok(sum) ==> sum.well_formed() && sum@ == sum_of(self@, matrix@),
            result matches Err(error) ==> error == MatrixError::ShapeMismatch,
    {
        let (rows, cols) = self.size();
        let (other_rows, other_cols) = matrix.size();
        if rows != other_rows || cols != other_cols {
            return Err(MatrixError::ShapeMismatch);
        }
        Ok(self.addition(matrix))
    }

    /// The `order` by `order` matrix with the scalar type's one in every
    /// diagonal cell and its default in every other.
    pub fn identity(order: usize) -> (result: Matrix<T>)
        requires
            order * order <= usize::MAX,
        ensures
            result.well_formed(),
            result@.rows == order,
            result@.cols == order,
            exists|zero: T| #[trigger] is_zero(zero) && is_identity(result@, zero),
    {
        let zero = T::default();
        assert(is_zero(zero));
        let mut result: Matrix<T> = Matrix::filled(order, order, zero);
        for rc in 0..order
            invariant
                result.well_formed(),
                result@.rows == order,
                result@.cols == order,
                forall|a: int, b: int|
                    0 <= a < order && 0 <= b < order ==> (if a == b && a < rc {
                        is_one(#[trigger] result@.at(a, b))
                    } else {
                        result@.at(a, b) == zero
                    }),
        {
            let one = T::one();
            assert(is_one(one));
            result.set(rc, rc, one);
        }
        result
    }

    /// The matrix with rows and columns exchanged.
    pub fn transpose(&self) -> (result: Matrix<T>)
        requires
            self.well_formed(),
        ensures
            result.well_formed(),
            result@ == self@.transposed(),
    {
        proof {
            self.lemma_view_is_well_formed();
            assert(self@.cols * self@.rows == self@.rows * self@.cols) by (nonlinear_arith);
        }
        let (rows, cols) = self.size();
        let zero = T::default();
        let mut result: Matrix<T> = Matrix::filled(cols, rows, zero);
        for i in 0..rows
            invariant
                self.well_formed(),
                result.well_formed(),
                self@.rows == rows,
                self@.cols == cols,
                result@.rows == cols,
                result@.cols == rows,
                forall|a: int, b: int|
                    0 <= a < cols && 0 <= b < rows ==> #[trigger] result@.at(a, b) == (if b < i {
                        self@.at(b, a)
                    } else {
                        zero
                    }),
        {
            for j in 0..cols
                invariant
                    self.well_formed(),
                    result.well_formed(),
                    i < rows,
                    self@.rows == rows,
                    self@.cols == cols,
                    result@.rows == cols,
                    result@.cols == rows,
                    forall|a: int, b: int|
                        0 <= a < cols && 0 <= b < rows ==> #[trigger] result@.at(a, b) == (if b < i
                            || (b == i && a < j) {
                            self@.at(b, a)
                        } else {
                            zero
                        }),
            {
                let value = self[i][j];
                proof {
                    assert(value == self@.at(i as int, j as int));
                }
                result.set(j, i, value);
            }
        }
        proof {
            lemma_equal_by_cells(result@, self@.transposed());
        }
        result
    }

    /// Matrix inversion is not provided. No matrix meets the precondition,
    /// so verified code cannot call this; anything else that does is
    /// stopped on entry.
    pub fn inverse(&self) -> (result: Matrix<T>)
        requires
            inversion_is_provided(),
    {
        vstd::pervasive::unreached()
    }
}

} // verus!
