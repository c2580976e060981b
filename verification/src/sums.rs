//! Finite sums of integer-valued functions, and the algebra the product
//! proofs need: pointwise rewriting, splitting a sum of sums, scaling, and
//! exchanging the order of a double sum.

use vstd::prelude::*;

verus! {

/// The sum `f(0) + f(1) + … + f(k - 1)`.
pub open spec fn sum_upto(f: spec_fn(int) -> int, k: int) -> int
    decreases k,
{
    if k <= 0 {
        0
    } else {
        sum_upto(f, k - 1) + f(k - 1)
    }
}

/// Two functions that agree below `k` have the same sum up to `k`.
pub proof fn lemma_sum_pointwise(f: spec_fn(int) -> int, g: spec_fn(int) -> int, k: int)
    requires
        forall|l: int| 0 <= l < k ==> #[trigger] f(l) == g(l),
    ensures
        sum_upto(f, k) == sum_upto(g, k),
    decreases k,
{
    if k > 0 {
        lemma_sum_pointwise(f, g, k - 1);
    }
}

/// A function that vanishes below `k` sums to zero.
pub proof fn lemma_sum_zero(f: spec_fn(int) -> int, k: int)
    requires
        forall|l: int| 0 <= l < k ==> #[trigger] f(l) == 0,
    ensures
        sum_upto(f, k) == 0,
    decreases k,
{
    if k > 0 {
        lemma_sum_zero(f, k - 1);
    }
}

/// The sum of a pointwise sum is the sum of the sums.
pub proof fn lemma_sum_add(
    f: spec_fn(int) -> int,
    g: spec_fn(int) -> int,
    h: spec_fn(int) -> int,
    k: int,
)
    requires
        forall|l: int| 0 <= l < k ==> #[trigger] h(l) == f(l) + g(l),
    ensures
        sum_upto(h, k) == sum_upto(f, k) + sum_upto(g, k),
    decreases k,
{
    if k > 0 {
        lemma_sum_add(f, g, h, k - 1);
    }
}

/// A common right factor moves out of a sum.
pub proof fn lemma_sum_scale(f: spec_fn(int) -> int, g: spec_fn(int) -> int, c: int, k: int)
    requires
        forall|l: int| 0 <= l < k ==> #[trigger] g(l) == f(l) * c,
    ensures
        sum_upto(g, k) == sum_upto(f, k) * c,
    decreases k,
{
    if k > 0 {
        lemma_sum_scale(f, g, c, k - 1);
        assert((sum_upto(f, k - 1) + f(k - 1)) * c == sum_upto(f, k - 1) * c + f(k - 1) * c)
            by (nonlinear_arith);
    } else {
        assert(0 * c == 0) by (nonlinear_arith);
    }
}

/// Exchanging the order of a double sum: summing `f` row by row equals
/// summing it column by column.
pub proof fn lemma_sum_exchange(f: spec_fn(int, int) -> int, rows: int, cols: int)
    ensures
        sum_upto((|i: int| sum_upto((|j: int| f(i, j)), cols)), rows) == sum_upto(
            (|j: int| sum_upto((|i: int| f(i, j)), rows)),
            cols,
        ),
    decreases rows,
{
    let row_sums = (|i: int| sum_upto((|j: int| f(i, j)), cols));
    let col_sums = (|j: int| sum_upto((|i: int| f(i, j)), rows));
    if rows <= 0 {
        lemma_sum_zero(col_sums, cols);
    } else {
        lemma_sum_exchange(f, rows - 1, cols);
        let col_sums_prev = (|j: int| sum_upto((|i: int| f(i, j)), rows - 1));
        let last_row = (|j: int| f(rows - 1, j));
        assert(forall|j: int| 0 <= j < cols ==> #[trigger] col_sums(j) == col_sums_prev(j)
            + last_row(j));
        lemma_sum_add(col_sums_prev, last_row, col_sums, cols);
    }
}

} // verus!
