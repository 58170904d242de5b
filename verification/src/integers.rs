use crate::arithmetic::accumulated;
use crate::arithmetic::product_is_defined;
use crate::arithmetic::product_of;
use crate::arithmetic::sum_is_defined;
use crate::arithmetic::sum_of;
use crate::grid::lemma_equal_by_cells;
use crate::grid::Grid;
use crate::integral::Integral;
use crate::scalar::is_zero;
use vstd::prelude::*;
use vstd::std_specs::ops::AddSpec;
use vstd::std_specs::ops::MulSpec;

verus! {

/// The integers that the scalars of a grid stand for.
pub open spec fn values<T: Integral>(grid: Grid<T>) -> Grid<int> {
    Grid::from_fn(grid.rows, grid.cols, |i: int, j: int| grid.at(i, j).value())
}

/// Every cell of the sum of `a` and `b` is representable in `T`.
pub open spec fn sum_is_representable<T: Integral>(a: Grid<int>, b: Grid<int>) -> bool {
    forall|i: int, j: int|
        #![trigger a.at(i, j)]
        0 <= i < a.rows && 0 <= j < a.cols ==> T::representable(a.at(i, j) + b.at(i, j))
}

/// Every product of two cells that the product of `a` and `b` adds up, and
/// every partial sum on the way, is representable in `T`.
pub open spec fn product_is_representable<T: Integral>(a: Grid<int>, b: Grid<int>) -> bool {
    &&& forall|i: int, j: int, t: int|
        0 <= i < a.rows && 0 <= j < b.cols && 0 <= t < a.cols ==> T::representable(
            #[trigger] a.at(i, t) * #[trigger] b.at(t, j),
        )
    &&& forall|i: int, j: int, t: int|
        0 <= i < a.rows && 0 <= j < b.cols && 0 <= t < a.cols ==> T::representable(
            #[trigger] a.dot(b, i, j, t) + a.at(i, t) * b.at(t, j),
        )
}

/// Grids of one shape whose scalars stand for the same integers are the
/// same.
pub proof fn lemma_values_are_faithful<T: Integral>(a: Grid<T>, b: Grid<T>)
    requires
        a.well_formed(),
        b.well_formed(),
        values(a) == values(b),
    ensures
        a == b,
{
    assert(values(a).rows == values(b).rows);
    assert(values(a).cols == values(b).cols);
    assert forall|i: int, j: int| 0 <= i < a.rows && 0 <= j < a.cols implies a.at(i, j) == b.at(
        i,
        j,
    ) by {
        assert(values(a).at(i, j) == a.at(i, j).value());
        assert(values(b).at(i, j) == b.at(i, j).value());
        T::lemma_value_is_faithful(a.at(i, j), b.at(i, j));
    }
    lemma_equal_by_cells(a, b);
}

/// Over integral scalars the cellwise sum is defined exactly when the sum
/// of the values is representable, and then stands for it.
pub proof fn lemma_sum_over_integers<T: Integral>(a: Grid<T>, b: Grid<T>)
    requires
        a.rows == b.rows,
        a.cols == b.cols,
    ensures
        sum_is_defined(a, b) <==> sum_is_representable::<T>(values(a), values(b)),
        sum_is_defined(a, b) ==> values(sum_of(a, b)) == values(a).plus(values(b)),
{
    let va = values(a);
    let vb = values(b);
    if sum_is_defined(a, b) {
        assert forall|i: int, j: int|
            #![trigger va.at(i, j)]
            0 <= i < va.rows && 0 <= j < va.cols implies T::representable(
            va.at(i, j) + vb.at(i, j),
        ) by {
            assert(a.at(i, j).add_req(b.at(i, j)));
            T::lemma_add(a.at(i, j), b.at(i, j));
        }
        assert forall|i: int, j: int| 0 <= i < a.rows && 0 <= j < a.cols implies values(
            sum_of(a, b),
        ).at(i, j) == va.plus(vb).at(i, j) by {
            assert(a.at(i, j).add_req(b.at(i, j)));
            T::lemma_add(a.at(i, j), b.at(i, j));
        }
        lemma_equal_by_cells(values(sum_of(a, b)), va.plus(vb));
    }
    if sum_is_representable::<T>(va, vb) {
        assert forall|i: int, j: int| 0 <= i < a.rows && 0 <= j < a.cols implies (#[trigger] a.at(
            i,
            j,
        )).add_req(b.at(i, j)) by {
            assert(T::representable(va.at(i, j) + vb.at(i, j)));
            T::lemma_add(a.at(i, j), b.at(i, j));
        }
    }
}

/// One cell of a product over integral scalars, up to its `k`-th term: if
/// every step so far is defined, the accumulated scalar stands for the
/// partial dot product of the values and every step is representable.
pub proof fn lemma_accumulated_when_defined<T: Integral>(
    a: Grid<T>,
    b: Grid<T>,
    i: int,
    j: int,
    k: int,
    zero: T,
)
    requires
        a.cols == b.rows,
        0 <= i < a.rows,
        0 <= j < b.cols,
        0 <= k <= a.cols,
        is_zero(zero),
        product_is_defined(a, b, zero),
    ensures
        accumulated(a, b, i, j, k, zero).value() == values(a).dot(values(b), i, j, k),
        k > 0 ==> T::representable(values(a).at(i, k - 1) * values(b).at(k - 1, j)),
        T::representable(values(a).dot(values(b), i, j, k)),
    decreases k,
{
    T::lemma_units(zero);
    T::lemma_units_are_representable();
    if k > 0 {
        lemma_accumulated_when_defined(a, b, i, j, k - 1, zero);
        let x = a.at(i, k - 1);
        let y = b.at(k - 1, j);
        let before = accumulated(a, b, i, j, k - 1, zero);
        assert(accumulated(a, b, i, j, k, zero) == before.add_spec(x.mul_spec(y)));
        assert(x.mul_req(y) && accumulated(a, b, i, j, k - 1, zero).add_req(x.mul_spec(y)));
        T::lemma_mul(x, y);
        T::lemma_add(before, x.mul_spec(y));
    }
}

/// One cell of a product over integral scalars, up to its `k`-th term: if
/// every step on the values is representable, every step so far is defined
/// and the accumulated scalar stands for the partial dot product.
pub proof fn lemma_accumulated_when_representable<T: Integral>(
    a: Grid<T>,
    b: Grid<T>,
    i: int,
    j: int,
    k: int,
    zero: T,
)
    requires
        a.cols == b.rows,
        0 <= i < a.rows,
        0 <= j < b.cols,
        0 <= k <= a.cols,
        is_zero(zero),
        product_is_representable::<T>(values(a), values(b)),
    ensures
        accumulated(a, b, i, j, k, zero).value() == values(a).dot(values(b), i, j, k),
        k > 0 ==> a.at(i, k - 1).mul_req(b.at(k - 1, j)) && accumulated(
            a,
            b,
            i,
            j,
            k - 1,
            zero,
        ).add_req(a.at(i, k - 1).mul_spec(b.at(k - 1, j))),
    decreases k,
{
    T::lemma_units(zero);
    if k > 0 {
        lemma_accumulated_when_representable(a, b, i, j, k - 1, zero);
        let x = a.at(i, k - 1);
        let y = b.at(k - 1, j);
        let before = accumulated(a, b, i, j, k - 1, zero);
        assert(T::representable(
            values(a).dot(values(b), i, j, k - 1) + values(a).at(i, k - 1) * values(b).at(
                k - 1,
                j,
            ),
        ));
        assert(values(a).at(i, k - 1) == x.value());
        assert(values(b).at(k - 1, j) == y.value());
        T::lemma_mul(x, y);
        T::lemma_add(before, x.mul_spec(y));
    }
}

/// Over integral scalars the product accumulated from a zero is defined
/// exactly when every step on the values is representable, and then
/// stands for the product of the values.
pub proof fn lemma_product_over_integers<T: Integral>(a: Grid<T>, b: Grid<T>, zero: T)
    requires
        a.cols == b.rows,
        is_zero(zero),
    ensures
        product_is_defined(a, b, zero) <==> product_is_representable::<T>(values(a), values(b)),
        product_is_defined(a, b, zero) ==> values(product_of(a, b, zero)) == values(a).times(
            values(b),
        ),
{
    let va = values(a);
    let vb = values(b);
    if product_is_defined(a, b, zero) {
        assert forall|i: int, j: int, t: int|
            0 <= i < va.rows && 0 <= j < vb.cols && 0 <= t < va.cols implies T::representable(
            #[trigger] va.at(i, t) * #[trigger] vb.at(t, j),
        ) by {
            lemma_accumulated_when_defined(a, b, i, j, t + 1, zero);
        }
        assert forall|i: int, j: int, t: int|
            0 <= i < va.rows && 0 <= j < vb.cols && 0 <= t < va.cols implies T::representable(
            #[trigger] va.dot(vb, i, j, t) + va.at(i, t) * vb.at(t, j),
        ) by {
            lemma_accumulated_when_defined(a, b, i, j, t + 1, zero);
        }
        assert forall|i: int, j: int| 0 <= i < a.rows && 0 <= j < b.cols implies values(
            product_of(a, b, zero),
        ).at(i, j) == va.times(vb).at(i, j) by {
            lemma_accumulated_when_defined(a, b, i, j, a.cols as int, zero);
        }
        lemma_equal_by_cells(values(product_of(a, b, zero)), va.times(vb));
    }
    if product_is_representable::<T>(va, vb) {
        assert forall|i: int, j: int, t: int|
            0 <= i < a.rows && 0 <= j < b.cols && 0 <= t < a.cols implies (#[trigger] a.at(
            i,
            t,
        )).mul_req(#[trigger] b.at(t, j)) by {
            lemma_accumulated_when_representable(a, b, i, j, t + 1, zero);
        }
        assert forall|i: int, j: int, t: int|
            0 <= i < a.rows && 0 <= j < b.cols && 0 <= t < a.cols implies (#[trigger] accumulated(
            a,
            b,
            i,
            j,
            t,
            zero,
        )).add_req(a.at(i, t).mul_spec(b.at(t, j))) by {
            lemma_accumulated_when_representable(a, b, i, j, t + 1, zero);
        }
    }
}

} // verus!
