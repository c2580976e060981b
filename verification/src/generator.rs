//! The matrix generator: two square matrices from a deterministic formula.

use crate::kernel::mul_fits;
use crate::matrix::entries_bounded;
use crate::matrix::identity_mat;
use crate::matrix::is_square;
use crate::matrix::mat_of;
use vstd::prelude::*;

verus! {

/// Which generation formula a run uses for the second matrix.
#[derive(Clone, Copy, PartialEq, Eq, Structural, Debug)]
pub enum Formula {
    /// The second matrix is the identity, so the product must equal the first.
    IdentityCheck,
    /// The second matrix holds `i - j`; used purely for timing.
    Difference,
}

/// The first generated matrix: entry `(i, j)` is `i + j`.
pub open spec fn first_mat(n: nat) -> Seq<Seq<i64>> {
    Seq::new(n, |i: int| Seq::new(n, |j: int| (i + j) as i64))
}

/// The difference matrix: entry `(i, j)` is `i - j`.
pub open spec fn difference_mat(n: nat) -> Seq<Seq<i64>> {
    Seq::new(n, |i: int| Seq::new(n, |j: int| (i - j) as i64))
}

/// The second generated matrix, as the formula selects it.
pub open spec fn second_mat(n: nat, formula: Formula) -> Seq<Seq<i64>> {
    match formula {
        Formula::IdentityCheck => identity_mat(n),
        Formula::Difference => difference_mat(n),
    }
}

fn build_first(n: usize) -> (m: Vec<Vec<i64>>)
    requires
        2 * n <= i64::MAX,
    ensures
        mat_of(m) == first_mat(n as nat),
{
    let mut m: Vec<Vec<i64>> = Vec::new();
    for i in 0..n
        invariant
            2 * n <= i64::MAX,
            m@.len() == i,
            forall|ii: int| 0 <= ii < i ==> (#[trigger] m@[ii])@ == first_mat(n as nat)[ii],
    {
        let mut row: Vec<i64> = Vec::new();
        for j in 0..n
            invariant
                2 * n <= i64::MAX,
                i < n,
                row@.len() == j,
                forall|jj: int| 0 <= jj < j ==> (#[trigger] row@[jj]) == (i + jj) as i64,
        {
            row.push(i as i64 + j as i64);
        }
        proof {
            assert(row@ =~= first_mat(n as nat)[i as int]);
        }
        m.push(row);
    }
    proof {
        assert(mat_of(m) =~= first_mat(n as nat));
    }
    m
}

fn build_identity(n: usize) -> (m: Vec<Vec<i64>>)
    ensures
        mat_of(m) == identity_mat(n as nat),
{
    let mut m: Vec<Vec<i64>> = Vec::new();
    for i in 0..n
        invariant
            m@.len() == i,
            forall|ii: int| 0 <= ii < i ==> (#[trigger] m@[ii])@ == identity_mat(n as nat)[ii],
    {
        let mut row: Vec<i64> = Vec::new();
        for j in 0..n
            invariant
                i < n,
                row@.len() == j,
                forall|jj: int|
                    0 <= jj < j ==> (#[trigger] row@[jj]) == if i == jj {
                        1i64
                    } else {
                        0i64
                    },
        {
            row.push(if i == j { 1 } else { 0 });
        }
        proof {
            assert(row@ =~= identity_mat(n as nat)[i as int]);
        }
        m.push(row);
    }
    proof {
        assert(mat_of(m) =~= identity_mat(n as nat));
    }
    m
}

fn build_difference(n: usize) -> (m: Vec<Vec<i64>>)
    requires
        n <= i64::MAX,
    ensures
        mat_of(m) == difference_mat(n as nat),
{
    let mut m: Vec<Vec<i64>> = Vec::new();
    for i in 0..n
        invariant
            n <= i64::MAX,
            m@.len() == i,
            forall|ii: int| 0 <= ii < i ==> (#[trigger] m@[ii])@ == difference_mat(n as nat)[ii],
    {
        let mut row: Vec<i64> = Vec::new();
        for j in 0..n
            invariant
                n <= i64::MAX,
                i < n,
                row@.len() == j,
                forall|jj: int| 0 <= jj < j ==> (#[trigger] row@[jj]) == (i - jj) as i64,
        {
            row.push(i as i64 - j as i64);
        }
        proof {
            assert(row@ =~= difference_mat(n as nat)[i as int]);
        }
        m.push(row);
    }
    proof {
        assert(mat_of(m) =~= difference_mat(n as nat));
    }
    m
}

/// Produce the two input matrices for one benchmark iteration.  The entries
/// are a pure function of the position and the chosen formula: no state is
/// read, so the output is fully determined by `n` and `formula`.
pub fn generate(n: usize, formula: Formula) -> (r: (Vec<Vec<i64>>, Vec<Vec<i64>>))
    requires
        2 * n <= i64::MAX,
    ensures
        mat_of(r.0) == first_mat(n as nat),
        mat_of(r.1) == second_mat(n as nat, formula),
{
    let mat1 = build_first(n);
    let mat2 = match formula {
        Formula::IdentityCheck => build_identity(n),
        Formula::Difference => build_difference(n),
    };
    (mat1, mat2)
}

/// Both generated matrices are square of side `n`, their entries are
/// bounded by `2 * n`, and whenever `4 * n³` fits in an `i64` the product
/// of the pair can be accumulated without overflow.
pub proof fn lemma_generated_fits(n: nat, formula: Formula)
    requires
        4 * n * n * n <= i64::MAX,
    ensures
        is_square(first_mat(n), n),
        is_square(second_mat(n, formula), n),
        mul_fits(first_mat(n), second_mat(n, formula), n),
{
    assert(n == 0 || 2 * n <= 4 * n * n * n) by (nonlinear_arith);
    assert(entries_bounded(first_mat(n), 2 * n as int));
    assert(entries_bounded(identity_mat(n), 2 * n as int));
    assert(entries_bounded(difference_mat(n), 2 * n as int));
    assert(n * (2 * n as int) * (2 * n as int) == 4 * n * n * n) by (nonlinear_arith);
    assert(0 <= 2 * n as int && entries_bounded(first_mat(n), 2 * n as int) && entries_bounded(
        second_mat(n, formula),
        2 * n as int,
    ) && n * (2 * n as int) * (2 * n as int) <= i64::MAX);
}

/// Whether the product of a generated pair of side `n` is known to fit:
/// exactly the sizes whose worst-case accumulation bound `4 * n³` stays
/// within `i64`.  A caller outside the library tests this before invoking
/// the kernel on generated matrices.
pub fn generated_product_fits(n: usize) -> (r: bool)
    ensures
        r <==> 4 * (n as int) * (n as int) * (n as int) <= i64::MAX,
        r ==> forall|formula: Formula|
            mul_fits(first_mat(n as nat), #[trigger] second_mat(n as nat, formula), n as nat),
{
    let r = n <= 1321122;
    proof {
        if n <= 1321122 {
            assert(4 * (n as int) * (n as int) * (n as int) <= 4 * 1321122int * 1321122int
                * 1321122int) by (nonlinear_arith)
                requires
                    0 <= n <= 1321122,
            ;
            lemma_generated_fits(n as nat, Formula::IdentityCheck);
            lemma_generated_fits(n as nat, Formula::Difference);
            assert forall|formula: Formula|
                mul_fits(
                    first_mat(n as nat),
                    #[trigger] second_mat(n as nat, formula),
                    n as nat,
                ) by {
                match formula {
                    Formula::IdentityCheck => {},
                    Formula::Difference => {},
                }
            }
        } else {
            assert(4 * (n as int) * (n as int) * (n as int) >= 4 * 1321123int * 1321123int
                * 1321123int) by (nonlinear_arith)
                requires
                    n >= 1321123,
            ;
        }
    }
    r
}

/// The generator is pure: two runs over the same size and formula agree on
/// every entry of both matrices.  The models below are exactly what
/// `generate` promises of its two results, so two calls with equal inputs
/// yield bit-identical matrices.
pub proof fn lemma_generate_pure(
    n: nat,
    formula: Formula,
    a1: Seq<Seq<i64>>,
    b1: Seq<Seq<i64>>,
    a2: Seq<Seq<i64>>,
    b2: Seq<Seq<i64>>,
)
    requires
        a1 == first_mat(n),
        b1 == second_mat(n, formula),
        a2 == first_mat(n),
        b2 == second_mat(n, formula),
    ensures
        a1 == a2,
        b1 == b2,
{
}

} // verus!
