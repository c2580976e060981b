//! The mathematical model of a dense square matrix.
//!
//! A matrix is stored row-major as a `Vec` of rows; its model is a
//! `Seq<Seq<i64>>`.  All contracts in this crate speak of that model.

use vstd::prelude::*;

verus! {

/// The model of a stored matrix: the sequence of its row views.
pub open spec fn mat_of(m: Vec<Vec<i64>>) -> Seq<Seq<i64>> {
    Seq::new(m@.len(), |i: int| m@[i]@)
}

/// `m` is a square matrix of side `n`: `n` rows, each of length `n`.
pub open spec fn is_square(m: Seq<Seq<i64>>, n: nat) -> bool {
    &&& m.len() == n
    &&& forall|i: int| 0 <= i < n ==> (#[trigger] m[i]).len() == n
}

/// The identity matrix of side `n`: ones on the diagonal, zeros elsewhere.
pub open spec fn identity_mat(n: nat) -> Seq<Seq<i64>> {
    Seq::new(
        n,
        |i: int| Seq::new(n, |j: int| if i == j { 1i64 } else { 0i64 }),
    )
}

/// Every entry of `m` lies within `[-bound, bound]`.
pub open spec fn entries_bounded(m: Seq<Seq<i64>>, bound: int) -> bool {
    forall|i: int, j: int|
        0 <= i < m.len() && 0 <= j < m[i].len() ==> -bound <= #[trigger] m[i][j] <= bound
}

} // verus!
