use crate::grid::lemma_equal_by_cells;
use crate::grid::Grid;
use crate::sums::lemma_sum_congruence;
use crate::sums::lemma_sum_exchange;
use crate::sums::lemma_sum_scale_left;
use crate::sums::lemma_sum_scale_right;
use crate::sums::sum;
use vstd::prelude::*;

verus! {

/// Adding the zero grid of the same shape gives the grid back.
pub proof fn lemma_plus_zero(a: Grid<int>)
    requires
        a.well_formed(),
    ensures
        a.plus(Grid::zero(a.rows, a.cols)) == a,
{
    lemma_equal_by_cells(a.plus(Grid::zero(a.rows, a.cols)), a);
}

/// The cellwise sum does not depend on the order of its operands.
pub proof fn lemma_plus_commutes(a: Grid<int>, b: Grid<int>)
    requires
        a.rows == b.rows,
        a.cols == b.cols,
    ensures
        a.plus(b) == b.plus(a),
{
    lemma_equal_by_cells(a.plus(b), b.plus(a));
}

/// Transposing twice gives the grid back.
pub proof fn lemma_transposed_twice<A>(a: Grid<A>)
    requires
        a.well_formed(),
    ensures
        a.transposed().transposed() == a,
{
    lemma_equal_by_cells(a.transposed().transposed(), a);
}

/// A row of `a` times a column of the identity picks one cell of the row:
/// the partial sum is zero until it has passed that cell.
pub proof fn lemma_dot_identity_right(a: Grid<int>, i: int, j: int, k: int)
    requires
        0 <= j < a.cols,
        0 <= k <= a.cols,
    ensures
        a.dot(Grid::identity(a.cols), i, j, k) == (if j < k {
            a.at(i, j)
        } else {
            0
        }),
    decreases k,
{
    if k > 0 {
        lemma_dot_identity_right(a, i, j, k - 1);
        let unit = Grid::identity(a.cols).at(k - 1, j);
        assert(unit == (if k - 1 == j {
            1int
        } else {
            0int
        }));
        assert(a.at(i, k - 1) * unit == (if k - 1 == j {
            a.at(i, j)
        } else {
            0
        })) by (nonlinear_arith)
            requires
                unit == (if k - 1 == j {
                    1int
                } else {
                    0int
                }),
        ;
    }
}

/// A row of the identity times a column of `a` picks one cell of the
/// column: the partial sum is zero until it has passed that cell.
pub proof fn lemma_dot_identity_left(a: Grid<int>, i: int, j: int, k: int)
    requires
        0 <= i < a.rows,
        0 <= k <= a.rows,
    ensures
        Grid::identity(a.rows).dot(a, i, j, k) == (if i < k {
            a.at(i, j)
        } else {
            0
        }),
    decreases k,
{
    if k > 0 {
        lemma_dot_identity_left(a, i, j, k - 1);
        let unit = Grid::identity(a.rows).at(i, k - 1);
        assert(unit == (if k - 1 == i {
            1int
        } else {
            0int
        }));
        assert(unit * a.at(k - 1, j) == (if k - 1 == i {
            a.at(i, j)
        } else {
            0
        })) by (nonlinear_arith)
            requires
                unit == (if k - 1 == i {
                    1int
                } else {
                    0int
                }),
        ;
    }
}

/// Multiplying by the identity on the right gives the grid back.
pub proof fn lemma_times_identity_right(a: Grid<int>)
    requires
        a.well_formed(),
    ensures
        a.times(Grid::identity(a.cols)) == a,
{
    let product = a.times(Grid::identity(a.cols));
    assert forall|i: int, j: int| 0 <= i < a.rows && 0 <= j < a.cols implies product.at(i, j)
        == a.at(i, j) by {
        lemma_dot_identity_right(a, i, j, a.cols as int);
    }
    lemma_equal_by_cells(product, a);
}

/// Multiplying by the identity on the left gives the grid back.
pub proof fn lemma_times_identity_left(a: Grid<int>)
    requires
        a.well_formed(),
    ensures
        Grid::identity(a.rows).times(a) == a,
{
    let product = Grid::identity(a.rows).times(a);
    assert forall|i: int, j: int| 0 <= i < a.rows && 0 <= j < a.cols implies product.at(i, j)
        == a.at(i, j) by {
        lemma_dot_identity_left(a, i, j, a.rows as int);
    }
    lemma_equal_by_cells(product, a);
}

/// A partial dot product is the sum of its terms.
pub proof fn lemma_dot_is_sum(a: Grid<int>, b: Grid<int>, i: int, j: int, k: int)
    ensures
        a.dot(b, i, j, k) == sum(|t: int| a.at(i, t) * b.at(t, j), k),
    decreases k,
{
    if k > 0 {
        lemma_dot_is_sum(a, b, i, j, k - 1);
    }
}

/// One cell of a triple product, computed either way.
pub proof fn lemma_times_associates_at(a: Grid<int>, b: Grid<int>, c: Grid<int>, i: int, j: int)
    requires
        a.cols == b.rows,
        b.cols == c.rows,
        0 <= i < a.rows,
        0 <= j < c.cols,
    ensures
        a.times(b).times(c).at(i, j) == a.times(b.times(c)).at(i, j),
{
    let m = a.cols as int;
    let n = b.cols as int;
    let ab = a.times(b);
    let bc = b.times(c);
    let term = |k: int, t: int| a.at(i, t) * b.at(t, k) * c.at(k, j);
    let by_k = |k: int| sum(|t: int| term(k, t), m);
    let by_t = |t: int| sum(|k: int| term(k, t), n);

    let left = |k: int| ab.at(i, k) * c.at(k, j);
    lemma_dot_is_sum(ab, c, i, j, n);
    assert forall|k: int| 0 <= k < n implies #[trigger] left(k) == by_k(k) by {
        let inner = |t: int| a.at(i, t) * b.at(t, k);
        lemma_dot_is_sum(a, b, i, k, m);
        lemma_sum_scale_right(inner, c.at(k, j), m);
        lemma_sum_congruence(|t: int| inner(t) * c.at(k, j), |t: int| term(k, t), m);
    }
    lemma_sum_congruence(left, by_k, n);

    let right = |t: int| a.at(i, t) * bc.at(t, j);
    lemma_dot_is_sum(a, bc, i, j, m);
    assert forall|t: int| 0 <= t < m implies #[trigger] right(t) == by_t(t) by {
        let inner = |k: int| b.at(t, k) * c.at(k, j);
        lemma_dot_is_sum(b, c, t, j, n);
        lemma_sum_scale_left(a.at(i, t), inner, n);
        assert forall|k: int| 0 <= k < n implies #[trigger] (a.at(i, t) * inner(k)) == term(
            k,
            t,
        ) by {
            let x = a.at(i, t);
            let y = b.at(t, k);
            let z = c.at(k, j);
            assert(x * (y * z) == x * y * z) by (nonlinear_arith);
        }
        lemma_sum_congruence(|k: int| a.at(i, t) * inner(k), |k: int| term(k, t), n);
    }
    lemma_sum_congruence(right, by_t, m);

    lemma_sum_exchange(term, n, m);
}

/// The matrix product is associative.
pub proof fn lemma_times_associates(a: Grid<int>, b: Grid<int>, c: Grid<int>)
    requires
        a.cols == b.rows,
        b.cols == c.rows,
    ensures
        a.times(b).times(c) == a.times(b.times(c)),
{
    assert forall|i: int, j: int| 0 <= i < a.rows && 0 <= j < c.cols implies a.times(b).times(
        c,
    ).at(i, j) == a.times(b.times(c)).at(i, j) by {
        lemma_times_associates_at(a, b, c, i, j);
    }
    lemma_equal_by_cells(a.times(b).times(c), a.times(b.times(c)));
}

} // verus!
