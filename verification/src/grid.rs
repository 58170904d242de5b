use vstd::prelude::*;

verus! {

/// A mathematical matrix: `rows` sequences of `cols` cells each.
///
/// A stored matrix is taken to mean the grid of its scalars; a grid of
/// integers is a matrix in the textbook sense.
#[verifier::ext_equal]
pub struct Grid<A> {
    pub rows: nat,
    pub cols: nat,
    pub cells: Seq<Seq<A>>,
}

impl<A> Grid<A> {
    /// There are `rows` rows and each has `cols` cells.
    pub open spec fn well_formed(self) -> bool {
        &&& self.cells.len() == self.rows
        &&& forall|i: int| 0 <= i < self.rows ==> (#[trigger] self.cells[i]).len() == self.cols
    }

    /// The cell in row `i`, column `j`.
    pub open spec fn at(self, i: int, j: int) -> A {
        self.cells[i][j]
    }

    /// The grid of the given shape whose cell `(i, j)` is `f(i, j)`.
    pub open spec fn from_fn(rows: nat, cols: nat, f: spec_fn(int, int) -> A) -> Grid<A> {
        Grid { rows, cols, cells: Seq::new(rows, |i: int| Seq::new(cols, |j: int| f(i, j))) }
    }

    /// The grid of the given shape with `a` in every cell.
    pub open spec fn constant(rows: nat, cols: nat, a: A) -> Grid<A> {
        Grid::from_fn(rows, cols, |i: int, j: int| a)
    }

    /// The square grid with `on` along the diagonal and `off` elsewhere.
    pub open spec fn diagonal(order: nat, on: A, off: A) -> Grid<A> {
        Grid::from_fn(
            order,
            order,
            |i: int, j: int|
                if i == j {
                    on
                } else {
                    off
                },
        )
    }

    /// The same grid with cell `(i, j)` replaced by `a`.
    pub open spec fn with_cell(self, i: int, j: int, a: A) -> Grid<A> {
        Grid::from_fn(
            self.rows,
            self.cols,
            |r: int, c: int|
                if r == i && c == j {
                    a
                } else {
                    self.at(r, c)
                },
        )
    }

    /// The grid with rows and columns exchanged.
    pub open spec fn transposed(self) -> Grid<A> {
        Grid::from_fn(self.cols, self.rows, |i: int, j: int| self.at(j, i))
    }
}

impl Grid<int> {
    /// The grid of the given shape with every cell zero.
    pub open spec fn zero(rows: nat, cols: nat) -> Grid<int> {
        Grid::constant(rows, cols, 0int)
    }

    /// The square grid with ones on the diagonal and zeros elsewhere.
    pub open spec fn identity(order: nat) -> Grid<int> {
        Grid::diagonal(order, 1int, 0int)
    }

    /// The cellwise sum; it has the shape of `self`.
    pub open spec fn plus(self, other: Grid<int>) -> Grid<int> {
        Grid::from_fn(self.rows, self.cols, |i: int, j: int| self.at(i, j) + other.at(i, j))
    }

    /// The sum of `self[i][t] * other[t][j]` over `0 <= t < k`.
    pub open spec fn dot(self, other: Grid<int>, i: int, j: int, k: int) -> int
        decreases k,
    {
        if k <= 0 {
            0
        } else {
            self.dot(other, i, j, k - 1) + self.at(i, k - 1) * other.at(k - 1, j)
        }
    }

    /// The matrix product: cell `(i, j)` is row `i` of `self` times column
    /// `j` of `other`.
    pub open spec fn times(self, other: Grid<int>) -> Grid<int> {
        Grid::from_fn(
            self.rows,
            other.cols,
            |i: int, j: int| self.dot(other, i, j, self.cols as int),
        )
    }
}

/// Two well-formed grids of one shape that agree cell by cell are the same.
pub proof fn lemma_equal_by_cells<A>(a: Grid<A>, b: Grid<A>)
    requires
        a.well_formed(),
        b.well_formed(),
        a.rows == b.rows,
        a.cols == b.cols,
        forall|i: int, j: int| 0 <= i < a.rows && 0 <= j < a.cols ==> a.at(i, j) == b.at(i, j),
    ensures
        a == b,
{
    assert forall|i: int| 0 <= i < a.rows implies a.cells[i] =~= b.cells[i] by {
        assert forall|j: int| 0 <= j < a.cols implies a.cells[i][j] == b.cells[i][j] by {
            assert(a.at(i, j) == b.at(i, j));
        }
    }
    assert(a.cells =~= b.cells);
}

} // verus!
