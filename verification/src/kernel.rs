//! The multiplication kernel: the canonical O(N³) dense product.

use crate::matrix::entries_bounded;
use crate::matrix::identity_mat;
use crate::matrix::is_square;
use crate::matrix::mat_of;
use crate::sums::lemma_sum_exchange;
use crate::sums::lemma_sum_pointwise;
use crate::sums::lemma_sum_scale;
use crate::sums::sum_upto;
use vstd::prelude::*;

verus! {

/// The sum of the first `k` terms of the dot product of row `i` of `a`
/// with column `j` of `b`.
pub open spec fn dot_prefix(a: Seq<Seq<i64>>, b: Seq<Seq<i64>>, i: int, j: int, k: int) -> int
    decreases k,
{
    if k <= 0 {
        0
    } else {
        dot_prefix(a, b, i, j, k - 1) + a[i][k - 1] * b[k - 1][j]
    }
}

/// Entry `(i, j)` of the matrix product `a · b`: the full dot product of
/// row `i` of `a` with column `j` of `b`.
pub open spec fn product_entry(a: Seq<Seq<i64>>, b: Seq<Seq<i64>>, i: int, j: int) -> int {
    dot_prefix(a, b, i, j, a.len() as int)
}

/// Every intermediate sum of the product fits in an `i64`: some common
/// entry bound `bound` keeps `n * bound * bound` within range.
pub open spec fn mul_fits(a: Seq<Seq<i64>>, b: Seq<Seq<i64>>, n: nat) -> bool {
    exists|bound: int|
        0 <= bound && #[trigger] entries_bounded(a, bound) && entries_bounded(b, bound) && n
            * bound * bound <= i64::MAX
}

proof fn lemma_dot_identity(m: Seq<Seq<i64>>, n: nat, i: int, j: int, k: int)
    requires
        is_square(m, n),
        0 <= i < n,
        0 <= j < n,
        0 <= k <= n,
    ensures
        dot_prefix(m, identity_mat(n), i, j, k) == if j < k {
            m[i][j] as int
        } else {
            0
        },
    decreases k,
{
    if k > 0 {
        lemma_dot_identity(m, n, i, j, k - 1);
        assert(identity_mat(n)[k - 1][j] == if k - 1 == j {
            1i64
        } else {
            0i64
        });
    }
}

/// The identity is a right unit of the product: for every square matrix
/// `m` of side `n`, each entry of `m · identity(n)` equals the matching
/// entry of `m`.
pub proof fn lemma_multiply_identity(m: Seq<Seq<i64>>, n: nat)
    requires
        is_square(m, n),
    ensures
        forall|i: int, j: int|
            0 <= i < n && 0 <= j < n ==> product_entry(m, identity_mat(n), i, j) == m[i][j] as int,
{
    assert forall|i: int, j: int|
        0 <= i < n && 0 <= j < n implies product_entry(m, identity_mat(n), i, j)
        == m[i][j] as int by {
        lemma_dot_identity(m, n, i, j, n as int);
    }
}

/// Any result whose entries are the product entries of `m` and the
/// identity — what `multiply` returns on an identity-formula pair — is `m`
/// itself, entry for entry: the identity verification of a run can never
/// fail on the kernel's output.
pub proof fn lemma_identity_product_is_first(m: Seq<Seq<i64>>, res: Seq<Seq<i64>>, n: nat)
    requires
        is_square(m, n),
        is_square(res, n),
        forall|i: int, j: int|
            0 <= i < n && 0 <= j < n ==> res[i][j] == product_entry(m, identity_mat(n), i, j),
    ensures
        res == m,
{
    lemma_multiply_identity(m, n);
    assert forall|i: int| 0 <= i < n implies res[i] =~= m[i] by {
        assert forall|j: int| 0 <= j < n implies res[i][j] == m[i][j] by {
            assert(res[i][j] == product_entry(m, identity_mat(n), i, j));
            assert(product_entry(m, identity_mat(n), i, j) == m[i][j] as int);
        }
    }
    assert(res =~= m);
}

proof fn lemma_dot_prefix_as_sum(a: Seq<Seq<i64>>, b: Seq<Seq<i64>>, i: int, j: int, k: int)
    ensures
        dot_prefix(a, b, i, j, k) == sum_upto((|l: int| a[i][l] * b[l][j]), k),
    decreases k,
{
    if k > 0 {
        lemma_dot_prefix_as_sum(a, b, i, j, k - 1);
    }
}

/// The kernel is associative: when `ab` holds the product entries of
/// `a · b` and `bc` those of `b · c`, the two ways of bracketing the
/// triple product agree entry for entry.
pub proof fn lemma_kernel_associative(
    a: Seq<Seq<i64>>,
    b: Seq<Seq<i64>>,
    c: Seq<Seq<i64>>,
    ab: Seq<Seq<i64>>,
    bc: Seq<Seq<i64>>,
    n: nat,
)
    requires
        is_square(a, n),
        is_square(b, n),
        is_square(c, n),
        is_square(ab, n),
        is_square(bc, n),
        forall|i: int, k: int|
            0 <= i < n && 0 <= k < n ==> #[trigger] ab[i][k] == product_entry(a, b, i, k),
        forall|l: int, j: int|
            0 <= l < n && 0 <= j < n ==> #[trigger] bc[l][j] == product_entry(b, c, l, j),
    ensures
        forall|i: int, j: int|
            0 <= i < n && 0 <= j < n ==> product_entry(ab, c, i, j) == product_entry(a, bc, i, j),
{
    let nn = n as int;
    assert forall|i: int, j: int|
        0 <= i < n && 0 <= j < n implies product_entry(ab, c, i, j) == product_entry(
        a,
        bc,
        i,
        j,
    ) by {
        let terms = (|k: int, l: int| a[i][l] * b[l][k] * c[k][j]);
        let fab = (|k: int| ab[i][k] * c[k][j]);
        let fbc = (|l: int| a[i][l] * bc[l][j]);
        let lhs_inner = (|k: int| sum_upto((|l: int| terms(k, l)), nn));
        let rhs_inner = (|l: int| sum_upto((|k: int| terms(k, l)), nn));
        lemma_dot_prefix_as_sum(ab, c, i, j, nn);
        lemma_dot_prefix_as_sum(a, bc, i, j, nn);
        assert forall|k: int| 0 <= k < nn implies #[trigger] fab(k) == lhs_inner(k) by {
            lemma_dot_prefix_as_sum(a, b, i, k, nn);
            let row = (|l: int| a[i][l] * b[l][k]);
            let scaled = (|l: int| (a[i][l] * b[l][k]) * (c[k][j] as int));
            lemma_sum_scale(row, scaled, c[k][j] as int, nn);
            lemma_sum_pointwise(scaled, (|l: int| terms(k, l)), nn);
        }
        lemma_sum_pointwise(fab, lhs_inner, nn);
        assert forall|l: int| 0 <= l < nn implies #[trigger] fbc(l) == rhs_inner(l) by {
            lemma_dot_prefix_as_sum(b, c, l, j, nn);
            let col = (|k: int| b[l][k] * c[k][j]);
            let scaled = (|k: int| (b[l][k] * c[k][j]) * (a[i][l] as int));
            lemma_sum_scale(col, scaled, a[i][l] as int, nn);
            assert((a[i][l] as int) * sum_upto(col, nn) == sum_upto(col, nn) * (a[i][l] as int))
                by (nonlinear_arith);
            assert forall|k: int| 0 <= k < nn implies #[trigger] scaled(k) == terms(k, l) by {
                assert((b[l][k] * c[k][j]) * (a[i][l] as int) == a[i][l] * b[l][k] * c[k][j])
                    by (nonlinear_arith);
            }
            lemma_sum_pointwise(scaled, (|k: int| terms(k, l)), nn);
        }
        lemma_sum_pointwise(fbc, rhs_inner, nn);
        lemma_sum_exchange(terms, nn, nn);
    }
}

proof fn lemma_term_bound(x: int, y: int, b: int)
    by (nonlinear_arith)
    requires
        -b <= x <= b,
        -b <= y <= b,
        0 <= b,
    ensures
        -(b * b) <= x * y <= b * b,
{
}

proof fn lemma_scale_mono(k: int, n: int, s: int)
    by (nonlinear_arith)
    requires
        0 <= k <= n,
        0 <= s,
    ensures
        k * s <= n * s,
{
}

/// The dense product of two `n`×`n` matrices by the naive triple loop:
/// entry `(i, j)` of the result is the dot product of row `i` of `mat1`
/// with column `j` of `mat2`, accumulated without overflow.
pub fn multiply(mat1: &Vec<Vec<i64>>, mat2: &Vec<Vec<i64>>, n: usize) -> (res: Vec<Vec<i64>>)
    requires
        1 <= n,
        is_square(mat_of(*mat1), n as nat),
        is_square(mat_of(*mat2), n as nat),
        mul_fits(mat_of(*mat1), mat_of(*mat2), n as nat),
    ensures
        is_square(mat_of(res), n as nat),
        forall|i: int, j: int|
            0 <= i < n && 0 <= j < n ==> mat_of(res)[i][j] == product_entry(
                mat_of(*mat1),
                mat_of(*mat2),
                i,
                j,
            ),
{
    let ghost a = mat_of(*mat1);
    let ghost b = mat_of(*mat2);
    let ghost bound = choose|bound: int|
        0 <= bound && #[trigger] entries_bounded(a, bound) && entries_bounded(b, bound) && n
            * bound * bound <= i64::MAX;
    let mut res: Vec<Vec<i64>> = Vec::new();
    for i in 0..n
        invariant
            a == mat_of(*mat1),
            b == mat_of(*mat2),
            1 <= n,
            is_square(a, n as nat),
            is_square(b, n as nat),
            0 <= bound,
            entries_bounded(a, bound),
            entries_bounded(b, bound),
            n * bound * bound <= i64::MAX,
            res@.len() == i,
            forall|ii: int| 0 <= ii < i ==> (#[trigger] res@[ii])@.len() == n,
            forall|ii: int, jj: int|
                0 <= ii < i && 0 <= jj < n ==> (#[trigger] res@[ii]@[jj]) == product_entry(
                    a,
                    b,
                    ii,
                    jj,
                ),
    {
        let mut row: Vec<i64> = Vec::new();
        for j in 0..n
            invariant
                a == mat_of(*mat1),
                b == mat_of(*mat2),
                1 <= n,
                i < n,
                is_square(a, n as nat),
                is_square(b, n as nat),
                0 <= bound,
                entries_bounded(a, bound),
                entries_bounded(b, bound),
                n * bound * bound <= i64::MAX,
                row@.len() == j,
                forall|jj: int|
                    0 <= jj < j ==> (#[trigger] row@[jj]) == product_entry(a, b, i as int, jj),
        {
            let mut acc: i64 = 0;
            for k in 0..n
                invariant
                    a == mat_of(*mat1),
                    b == mat_of(*mat2),
                    1 <= n,
                    i < n,
                    j < n,
                    is_square(a, n as nat),
                    is_square(b, n as nat),
                    0 <= bound,
                    entries_bounded(a, bound),
                    entries_bounded(b, bound),
                    n * bound * bound <= i64::MAX,
                    acc == dot_prefix(a, b, i as int, j as int, k as int),
                    -(k * bound * bound) <= acc <= k * bound * bound,
            {
                proof {
                    assert(a[i as int].len() == n && b[k as int].len() == n);
                    assert(-bound <= a[i as int][k as int] <= bound);
                    assert(-bound <= b[k as int][j as int] <= bound);
                    lemma_term_bound(a[i as int][k as int] as int, b[k as int][j as int] as int, bound);
                    lemma_scale_mono(1, n as int, bound * bound);
                    lemma_scale_mono(k + 1, n as int, bound * bound);
                    assert(n as int * (bound * bound) == n as int * bound * bound)
                        by (nonlinear_arith);
                    assert(bound * bound <= i64::MAX);
                    assert((k + 1) * (bound * bound) <= i64::MAX);
                }
                let term: i64 = mat1[i][k] * mat2[k][j];
                proof {
                    assert(term == a[i as int][k as int] * b[k as int][j as int]);
                    assert(k * bound * bound + bound * bound == (k + 1) * (bound * bound)
                        && (k + 1) * bound * bound == (k + 1) * (bound * bound))
                        by (nonlinear_arith);
                }
                acc = acc + term;
            }
            proof {
                assert(acc == product_entry(a, b, i as int, j as int));
            }
            row.push(acc);
        }
        res.push(row);
    }
    proof {
        assert(is_square(mat_of(res), n as nat));
    }
    res
}

} // verus!
