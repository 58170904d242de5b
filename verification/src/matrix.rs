use crate::error::MatrixError;
use crate::grid::lemma_equal_by_cells;
use crate::grid::Grid;
use crate::scalar::is_zero;
use crate::scalar::Numeric;
use vstd::prelude::*;

verus! {

/// A dense matrix of scalars, stored row by row in one vector.
pub struct Matrix<T: Numeric> {
    data: Vec<T>,
    rows: usize,
    cols: usize,
}

/// Row `i` of a row-major layout lies inside the storage.
pub proof fn lemma_row_in_bounds(rows: int, cols: int, i: int)
    by (nonlinear_arith)
    requires
        0 <= i < rows,
        0 <= cols,
    ensures
        0 <= i * cols,
        i * cols + cols <= rows * cols,
{
}

/// Cell `(i, j)` of a row-major layout lies inside the storage.
pub proof fn lemma_offset_in_bounds(rows: int, cols: int, i: int, j: int)
    by (nonlinear_arith)
    requires
        0 <= i < rows,
        0 <= j < cols,
    ensures
        0 <= i * cols + j < rows * cols,
{
}

/// Distinct cells of a row-major layout have distinct offsets.
pub proof fn lemma_offset_is_injective(cols: int, i: int, j: int, a: int, b: int)
    by (nonlinear_arith)
    requires
        0 <= j < cols,
        0 <= b < cols,
        i * cols + j == a * cols + b,
    ensures
        i == a,
        j == b,
{
}

/// Every offset into a row-major layout is the offset of one cell.
pub proof fn lemma_offset_has_cell(rows: int, cols: int, t: int)
    by (nonlinear_arith)
    requires
        0 <= t < rows * cols,
        0 <= rows,
        0 <= cols,
    ensures
        cols > 0,
        0 <= t / cols < rows,
        0 <= t % cols < cols,
        (t / cols) * cols + t % cols == t,
{
}

/// Every row is as long as the first.
pub open spec fn is_rectangular<T>(rows: Seq<Vec<T>>) -> bool {
    forall|i: int| 0 <= i < rows.len() ==> (#[trigger] rows[i])@.len() == rows[0]@.len()
}

/// The grid that a list of rows spells out: as many rows as the list has,
/// as many columns as its first row is long.
pub open spec fn grid_of_rows<T>(rows: Seq<Vec<T>>) -> Grid<T> {
    Grid::from_fn(rows.len(), rows[0]@.len(), |i: int, j: int| rows[i]@[j])
}

impl<T: Numeric> View for Matrix<T> {
    type V = Grid<T>;

    /// The grid of the stored scalars, read row by row.
    open spec fn view(&self) -> Grid<T> {
        Grid::from_fn(
            self.shape().0,
            self.shape().1,
            |i: int, j: int| self.elements()[self.offset(i, j)],
        )
    }
}

impl<T: Numeric> Matrix<T> {
    /// The number of rows and of columns.
    pub closed spec fn shape(&self) -> (nat, nat) {
        (self.rows as nat, self.cols as nat)
    }

    /// The stored scalars in row-major order.
    pub closed spec fn elements(&self) -> Seq<T> {
        self.data@
    }

    /// Where cell `(i, j)` lies in the storage.
    pub open spec fn offset(&self, i: int, j: int) -> int {
        i * self.shape().1 + j
    }

    /// The scalars of row `i`, in column order.
    pub open spec fn row_elements(&self, i: int) -> Seq<T> {
        self.elements().subrange(self.offset(i, 0), self.offset(i, 0) + self.shape().1)
    }

    /// The storage holds exactly one scalar per cell.
    pub open spec fn well_formed(&self) -> bool {
        self.elements().len() == self.shape().0 * self.shape().1
    }

    /// In a well-formed matrix each cell has its place in the storage, and
    /// rows lie one after another.
    pub proof fn lemma_layout(&self, i: int, j: int)
        requires
            self.well_formed(),
            0 <= i < self@.rows,
            0 <= j < self@.cols,
        ensures
            0 <= self.offset(i, 0),
            self.offset(i, 0) + self@.cols <= self.elements().len(),
            self.offset(i, j) == self.offset(i, 0) + j,
            self.row_elements(i).len() == self@.cols,
            self.row_elements(i)[j] == self.elements()[self.offset(i, j)],
            self@.at(i, j) == self.elements()[self.offset(i, j)],
    {
        lemma_row_in_bounds(self@.rows as int, self@.cols as int, i);
    }

    /// The view is a well-formed grid of the matrix's shape, and a
    /// well-formed matrix has no more cells than a vector can hold.
    pub proof fn lemma_view_is_well_formed(&self)
        ensures
            self@.well_formed(),
            self@.rows == self.shape().0,
            self@.cols == self.shape().1,
            self.well_formed() ==> self@.rows * self@.cols <= usize::MAX,
    {
        assert(self.data@.len() == self.data.len());
    }

    /// Well-formed matrices with one view hold the same scalars in the same
    /// shape.
    pub proof fn lemma_view_determines_elements(&self, other: &Matrix<T>)
        requires
            self.well_formed(),
            other.well_formed(),
            self@ == other@,
        ensures
            self.shape() == other.shape(),
            self.elements() == other.elements(),
    {
        let rows = self@.rows as int;
        let cols = self@.cols as int;
        assert forall|t: int| 0 <= t < self.elements().len() implies self.elements()[t]
            == other.elements()[t] by {
            lemma_offset_has_cell(rows, cols, t);
            let i = t / cols;
            let j = t % cols;
            self.lemma_layout(i, j);
            other.lemma_layout(i, j);
        }
        assert(self.elements() =~= other.elements());
    }

    /// Builds the `rows` by `cols` matrix with `value` in every cell.
    pub fn filled(rows: usize, cols: usize, value: T) -> (result: Matrix<T>)
        requires
            rows * cols <= usize::MAX,
        ensures
            result.well_formed(),
            result@ == Grid::constant(rows as nat, cols as nat, value),
    {
        let len: usize = rows * cols;
        let mut data: Vec<T> = Vec::with_capacity(len);
        while data.len() < len
            invariant
                data.len() <= len,
                forall|t: int| 0 <= t < data.len() ==> data@[t] == value,
            decreases len - data.len(),
        {
            data.push(value);
        }
        let result = Matrix { data, rows, cols };
        proof {
            let target = Grid::constant(rows as nat, cols as nat, value);
            assert forall|i: int, j: int| 0 <= i < rows && 0 <= j < cols implies result@.at(i, j)
                == target.at(i, j) by {
                result.lemma_layout(i, j);
            }
            lemma_equal_by_cells(result@, target);
        }
        result
    }

    /// Builds the `rows` by `cols` matrix of zeros: every cell holds the
    /// scalar type's default.
    pub fn new(rows: usize, cols: usize) -> (result: Matrix<T>)
        requires
            rows * cols <= usize::MAX,
        ensures
            result.well_formed(),
            exists|zero: T|
                #[trigger] is_zero(zero) && result@ == Grid::constant(
                    rows as nat,
                    cols as nat,
                    zero,
                ),
    {
        let zero = T::default();
        assert(is_zero(zero));
        Matrix::filled(rows, cols, zero)
    }

    /// Builds the matrix that a nonempty list of rows spells out, or reports
    /// a shape mismatch when the rows are not all of one length.
    pub fn from_rows(rows: Vec<Vec<T>>) -> (result: Result<Matrix<T>, MatrixError>)
        requires
            rows@.len() > 0,
        ensures
            result is Ok <==> is_rectangular(rows@),
            result matches Ok(matrix) ==> matrix.well_formed() && matrix@ == grid_of_rows(rows@),
            result matches Err(error) ==> error == MatrixError::ShapeMismatch,
    {
        let count: usize = rows.len();
        let cols: usize = rows[0].len();
        for i in 0..count
            invariant
                count == rows@.len(),
                cols == rows@[0]@.len(),
                forall|a: int| 0 <= a < i ==> (#[trigger] rows@[a])@.len() == cols,
        {
            if rows[i].len() != cols {
                return Err(MatrixError::ShapeMismatch);
            }
        }
        let mut data: Vec<T> = Vec::new();
        assert(data@.len() == 0 * cols);
        for i in 0..count
            invariant
                count == rows@.len(),
                cols == rows@[0]@.len(),
                is_rectangular(rows@),
                data@.len() == i * cols,
                forall|a: int, b: int|
                    0 <= a < i && 0 <= b < cols ==> data@[a * cols + b] == #[trigger] rows@[a]@[b],
        {
            for j in 0..cols
                invariant
                    i < count,
                    count == rows@.len(),
                    cols == rows@[0]@.len(),
                    is_rectangular(rows@),
                    data@.len() == i * cols + j,
                    forall|a: int, b: int|
                        0 <= a < i && 0 <= b < cols ==> data@[a * cols + b] == #[trigger] rows@[a]@[b],
                    forall|b: int| 0 <= b < j ==> data@[i * cols + b] == #[trigger] rows@[i as int]@[b],
            {
                let ghost before = data@;
                data.push(rows[i][j]);
                proof {
                    assert forall|a: int, b: int| 0 <= a < i && 0 <= b < cols implies data@[a
                        * cols + b] == #[trigger] rows@[a]@[b] by {
                        lemma_offset_in_bounds(i as int, cols as int, a, b);
                        assert(before[a * cols + b] == rows@[a]@[b]);
                    }
                }
            }
            proof {
                assert((i + 1) * cols == i * cols + cols) by (nonlinear_arith);
                assert forall|a: int, b: int| 0 <= a < i + 1 && 0 <= b < cols implies data@[a
                    * cols + b] == #[trigger] rows@[a]@[b] by {
                    if a == i {
                        assert(data@[i * cols + b] == rows@[i as int]@[b]);
                    }
                }
            }
        }
        let result = Matrix { data, rows: count, cols };
        proof {
            let target = grid_of_rows(rows@);
            assert forall|i: int, j: int| 0 <= i < count && 0 <= j < cols implies result@.at(i, j)
                == target.at(i, j) by {
                result.lemma_layout(i, j);
                assert(result.data@[i * cols + j] == rows@[i]@[j]);
            }
            lemma_equal_by_cells(result@, target);
        }
        Ok(result)
    }

    /// The grid that results when row `index` of `self` is replaced by `row`.
    pub open spec fn with_row(&self, index: int, row: Seq<T>) -> Grid<T> {
        Grid::from_fn(
            self@.rows,
            self@.cols,
            |i: int, j: int|
                if i == index {
                    row[j]
                } else {
                    self@.at(i, j)
                },
        )
    }

    /// `after` is `self` with row `index` replaced by `row`, and well
    /// formed.
    pub open spec fn row_replaced(&self, index: int, row: Seq<T>, after: Matrix<T>) -> bool {
        after.well_formed() && after@ == self.with_row(index, row)
    }

    /// Replacing the stored scalars of one row replaces that row of the
    /// view and keeps the matrix well formed.
    pub proof fn lemma_row_replaced(&self, after: Matrix<T>, index: int, row: Seq<T>)
        requires
            self.well_formed(),
            0 <= index < self@.rows,
            after.shape() == self.shape(),
            row.len() == self@.cols,
            after.elements() == self.elements().subrange(0, self.offset(index, 0)) + row
                + self.elements().subrange(
                self.offset(index, 0) + self@.cols,
                self.elements().len() as int,
            ),
        ensures
            after.well_formed(),
            after@ == self.with_row(index, row),
    {
        lemma_row_in_bounds(self@.rows as int, self@.cols as int, index);
        let target = self.with_row(index, row);
        assert(after.well_formed());
        assert forall|i: int, j: int| 0 <= i < self@.rows && 0 <= j < self@.cols implies after@.at(
            i,
            j,
        ) == target.at(i, j) by {
            self.lemma_layout(i, j);
            after.lemma_layout(i, j);
            if i < index {
                lemma_row_in_bounds(index, self@.cols as int, i);
            }
            if i > index {
                lemma_row_in_bounds(i, self@.cols as int, index);
            }
        }
        lemma_equal_by_cells(after@, target);
    }

    /// Row `index` as a slice through which its scalars can be replaced.
    ///
    /// The matrix afterwards is the old one with that row's scalars swapped
    /// for whatever the slice holds when the borrow ends; a slice keeps its
    /// length, and with it the matrix stays well formed.
    pub fn index_mut(&mut self, index: usize) -> (result: &mut [T])
        requires
            old(self).well_formed(),
            index < old(self)@.rows,
        ensures
            result@ == old(self).row_elements(index as int),
            result@.len() == old(self)@.cols,
            final(self).shape() == old(self).shape(),
            final(self).elements() == old(self).elements().subrange(
                0,
                old(self).offset(index as int, 0),
            ) + final(result)@ + old(self).elements().subrange(
                old(self).offset(index as int, 0) + old(self)@.cols,
                old(self).elements().len() as int,
            ),
            final(result)@.len() == result@.len() ==> old(self).row_replaced(
                index as int,
                final(result)@,
                *final(self),
            ),
    {
        proof {
            lemma_row_in_bounds(self.rows as int, self.cols as int, index as int);
            assert(self.data@.len() == self.data.len());
        }
        let start: usize = index * self.cols;
        let cols: usize = self.cols;
        proof {
            let before = *self;
            assert forall|after: Matrix<T>, row: Seq<T>|
                after.shape() == before.shape() && row.len() == before@.cols && after.elements()
                    =~= before.elements().subrange(0, before.offset(index as int, 0)) + row
                    + before.elements().subrange(
                    before.offset(index as int, 0) + before@.cols,
                    before.elements().len() as int,
                ) implies #[trigger] before.row_replaced(index as int, row, after) by {
                before.lemma_row_replaced(after, index as int, row);
            }
        }
        let (_, tail) = self.data.as_mut_slice().split_at_mut(start);
        let (row, _) = tail.split_at_mut(cols);
        row
    }

    /// Replaces the scalar in row `i`, column `j`.
    pub fn set(&mut self, i: usize, j: usize, value: T)
        requires
            old(self).well_formed(),
            i < old(self)@.rows,
            j < old(self)@.cols,
        ensures
            final(self).well_formed(),
            final(self)@ == old(self)@.with_cell(i as int, j as int, value),
            final(self).elements() == old(self).elements().update(
                old(self).offset(i as int, j as int),
                value,
            ),
    {
        proof {
            self.lemma_layout(i as int, j as int);
            assert(self.data@.len() == self.data.len());
        }
        let at: usize = i * self.cols + j;
        self.data.set(at, value);
        proof {
            let target = old(self)@.with_cell(i as int, j as int, value);
            assert forall|a: int, b: int| 0 <= a < self@.rows && 0 <= b < self@.cols implies self@.at(
                a,
                b,
            ) == target.at(a, b) by {
                self.lemma_layout(a, b);
                old(self).lemma_layout(a, b);
                if self.offset(a, b) == self.offset(i as int, j as int) {
                    lemma_offset_is_injective(self@.cols as int, a, b, i as int, j as int);
                }
            }
            lemma_equal_by_cells(self@, target);
        }
    }

    /// The shape as a pair: rows, then columns.
    pub fn size(&self) -> (result: (usize, usize))
        ensures
            result.0 == self@.rows,
            result.1 == self@.cols,
    {
        (self.rows, self.cols)
    }
}

impl<T: Numeric> Clone for Matrix<T> {
    /// A matrix of its own with the same shape and the same scalars.
    fn clone(&self) -> (result: Self)
        ensures
            result.shape() == self.shape(),
            result.elements() == self.elements(),
            result@ == self@,
            result.well_formed() == self.well_formed(),
    {
        let mut data: Vec<T> = Vec::with_capacity(self.data.len());
        for t in 0..self.data.len()
            invariant
                data@ == self.data@.subrange(0, t as int),
        {
            data.push(self.data[t]);
        }
        assert(data@ == self.data@);
        let result = Matrix { data, rows: self.rows, cols: self.cols };
        assert(result@ =~~= self@);
        result
    }
}

impl<T: Numeric> vstd::std_specs::core::IndexSpecImpl<usize> for Matrix<T> {
    open spec fn index_req(&self, index: &usize) -> bool {
        self.well_formed() && *index < self@.rows
    }
}

impl<T: Numeric> core::ops::Index<usize> for Matrix<T> {
    type Output = [T];

    /// `matrix[i]` is row `i`, so that `matrix[i][j]` is the scalar in row
    /// `i`, column `j`.
    fn index(&self, index: usize) -> (result: &[T])
        ensures
            result@ == self.row_elements(index as int),
            result@.len() == self@.cols,
            forall|j: int| 0 <= j < self@.cols ==> #[trigger] result@[j] == self@.at(index as int, j),
    {
        proof {
            lemma_row_in_bounds(self.rows as int, self.cols as int, index as int);
            assert(self.data@.len() == self.data.len());
            assert forall|j: int| 0 <= j < self@.cols implies #[trigger] self.row_elements(
                index as int,
            )[j] == self@.at(index as int, j) by {
                self.lemma_layout(index as int, j);
            }
        }
        let start: usize = index * self.cols;
        let end: usize = start + self.cols;
        vstd::slice::slice_subrange(self.data.as_slice(), start, end)
    }
}

} // verus!
