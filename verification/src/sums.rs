use vstd::prelude::*;

verus! {

/// The sum of `f(t)` over `0 <= t < n`.
pub open spec fn sum(f: spec_fn(int) -> int, n: int) -> int
    decreases n,
{
    if n <= 0 {
        0
    } else {
        sum(f, n - 1) + f(n - 1)
    }
}

/// Sums of functions that agree below `n` agree.
pub proof fn lemma_sum_congruence(f: spec_fn(int) -> int, g: spec_fn(int) -> int, n: int)
    requires
        forall|t: int| 0 <= t < n ==> #[trigger] f(t) == g(t),
    ensures
        sum(f, n) == sum(g, n),
    decreases n,
{
    if n > 0 {
        lemma_sum_congruence(f, g, n - 1);
    }
}

/// A constant factor on the left moves out of a sum.
pub proof fn lemma_sum_scale_left(c: int, f: spec_fn(int) -> int, n: int)
    ensures
        sum(|t: int| c * f(t), n) == c * sum(f, n),
    decreases n,
{
    if n > 0 {
        lemma_sum_scale_left(c, f, n - 1);
        assert(c * sum(f, n - 1) + c * f(n - 1) == c * (sum(f, n - 1) + f(n - 1)))
            by (nonlinear_arith);
    } else {
        assert(c * 0 == 0) by (nonlinear_arith);
    }
}

/// A constant factor on the right moves out of a sum.
pub proof fn lemma_sum_scale_right(f: spec_fn(int) -> int, c: int, n: int)
    ensures
        sum(|t: int| f(t) * c, n) == sum(f, n) * c,
    decreases n,
{
    if n > 0 {
        lemma_sum_scale_right(f, c, n - 1);
        assert(sum(f, n - 1) * c + f(n - 1) * c == (sum(f, n - 1) + f(n - 1)) * c)
            by (nonlinear_arith);
    } else {
        assert(0 * c == 0) by (nonlinear_arith);
    }
}

/// The sum of a cellwise sum is the sum of the sums.
pub proof fn lemma_sum_add(f: spec_fn(int) -> int, g: spec_fn(int) -> int, n: int)
    ensures
        sum(|t: int| f(t) + g(t), n) == sum(f, n) + sum(g, n),
    decreases n,
{
    if n > 0 {
        lemma_sum_add(f, g, n - 1);
    }
}

/// A double sum may be taken in either order.
pub proof fn lemma_sum_exchange(g: spec_fn(int, int) -> int, n: int, m: int)
    ensures
        sum(|k: int| sum(|t: int| g(k, t), m), n) == sum(|t: int| sum(|k: int| g(k, t), n), m),
    decreases n,
{
    let rows = |k: int| sum(|t: int| g(k, t), m);
    let cols = |t: int| sum(|k: int| g(k, t), n);
    if n > 0 {
        let shorter = |t: int| sum(|k: int| g(k, t), n - 1);
        let last = |t: int| g(n - 1, t);
        lemma_sum_exchange(g, n - 1, m);
        lemma_sum_add(shorter, last, m);
        lemma_sum_congruence(cols, |t: int| shorter(t) + last(t), m);
        assert(sum(rows, n) == sum(rows, n - 1) + rows(n - 1));
        assert(rows(n - 1) == sum(last, m)) by {
            lemma_sum_congruence(|t: int| g(n - 1, t), last, m);
        }
    } else {
        lemma_sum_congruence(cols, |t: int| 0int, m);
        lemma_sum_zero(m);
    }
}

/// A sum of zeros is zero.
pub proof fn lemma_sum_zero(n: int)
    ensures
        sum(|t: int| 0int, n) == 0,
    decreases n,
{
    if n > 0 {
        lemma_sum_zero(n - 1);
    }
}

} // verus!
