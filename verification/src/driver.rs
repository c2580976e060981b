//! The benchmark driver's bookkeeping: the size list, the per-iteration
//! verification decision, and the record handed to the recorder.
//!
//! The driver's surrounding loop (timing and file output) lives outside the
//! library; what it decides and what it writes is computed and specified
//! here.

use crate::generator::Formula;
use crate::matrix::is_square;
use crate::matrix::mat_of;
use crate::recorder::blank_pairs;
use crate::recorder::lemma_blank_pairs_concat;
use crate::recorder::lemma_record_rep_blank_pairs;
use crate::recorder::record_block;
use crate::recorder::record_rep;
use vstd::prelude::*;

verus! {

/// One persisted benchmark record: the problem size and the two measured
/// durations, in whole microseconds.
#[derive(Clone, Copy, PartialEq, Eq, Structural, Debug)]
pub struct BenchmarkRecord {
    /// The side length of the matrices of this iteration.
    pub n: usize,
    /// Wall-clock time to allocate and populate both input matrices.
    pub alloc_micros: u64,
    /// Wall-clock time to compute the product.
    pub calc_micros: u64,
}

/// The configuration of one run: the ordered problem sizes, the generation
/// formula, and where the output artifact lives.
#[derive(Debug)]
pub struct RunConfig {
    /// The ordered list of matrix side lengths to benchmark.
    pub sizes: Vec<usize>,
    /// The generation formula for the second matrix.
    pub formula: Formula,
    /// Where the run appends its records; only the surrounding binary
    /// opens it.
    pub output_path: String,
}

/// The record block of one benchmark record.
pub open spec fn record_rep_of(rec: BenchmarkRecord) -> Seq<u8> {
    record_rep(rec.n as nat, rec.alloc_micros as nat, rec.calc_micros as nat)
}

/// The whole output artifact of a run: the record blocks of all records,
/// concatenated in order.
pub open spec fn artifact_rep(recs: Seq<BenchmarkRecord>) -> Seq<u8>
    decreases recs.len(),
{
    if recs.len() == 0 {
        Seq::empty()
    } else {
        artifact_rep(recs.drop_last()) + record_rep_of(recs.last())
    }
}

/// A full run writes as many records as it has problem sizes, in list
/// order: the artifact of `recs` holds exactly `recs.len()` record blocks,
/// one blank-line separator each, concatenated in the order of `recs`.
pub proof fn lemma_artifact_record_count(recs: Seq<BenchmarkRecord>)
    ensures
        blank_pairs(artifact_rep(recs)) == recs.len(),
        recs.len() > 0 ==> artifact_rep(recs).len() >= 2 && artifact_rep(recs).last() == 10,
    decreases recs.len(),
{
    if recs.len() > 0 {
        let prefix = artifact_rep(recs.drop_last());
        let block = record_rep_of(recs.last());
        lemma_artifact_record_count(recs.drop_last());
        lemma_record_rep_blank_pairs(
            recs.last().n as nat,
            recs.last().alloc_micros as nat,
            recs.last().calc_micros as nat,
        );
        if recs.len() == 1 {
            assert(prefix + block =~= block);
        } else {
            lemma_blank_pairs_concat(prefix, block);
            assert((prefix + block).last() == block.last());
        }
    }
}

/// A run that stops after its first `k` records — as an aborted run does —
/// has written exactly a prefix of the full artifact: the blocks already
/// on disk are unchanged by anything that would have followed, and by
/// `lemma_artifact_record_count` that prefix is itself a well-formed
/// artifact of `k` records.
pub proof fn lemma_artifact_prefix(recs: Seq<BenchmarkRecord>, k: int)
    requires
        0 <= k <= recs.len(),
    ensures
        artifact_rep(recs.take(k)).is_prefix_of(artifact_rep(recs)),
    decreases recs.len(),
{
    if k < recs.len() {
        assert(recs.take(k) =~= recs.drop_last().take(k));
        lemma_artifact_prefix(recs.drop_last(), k);
        let x = artifact_rep(recs.take(k));
        let y = artifact_rep(recs.drop_last());
        let b = record_rep_of(recs.last());
        assert(x =~= y.subrange(0, x.len() as int));
        assert((y + b).subrange(0, x.len() as int) =~= y.subrange(0, x.len() as int));
        assert(x.is_prefix_of(y + b));
    } else {
        assert(recs.take(k) =~= recs);
    }
}

/// Compare two square matrices of side `n` entry by entry.
pub fn matrices_equal(a: &Vec<Vec<i64>>, b: &Vec<Vec<i64>>, n: usize) -> (r: bool)
    requires
        is_square(mat_of(*a), n as nat),
        is_square(mat_of(*b), n as nat),
    ensures
        r <==> mat_of(*a) == mat_of(*b),
{
    for i in 0..n
        invariant
            is_square(mat_of(*a), n as nat),
            is_square(mat_of(*b), n as nat),
            forall|ii: int, jj: int|
                0 <= ii < i && 0 <= jj < n ==> (#[trigger] mat_of(*a)[ii][jj]) == mat_of(
                    *b,
                )[ii][jj],
    {
        for j in 0..n
            invariant
                i < n,
                is_square(mat_of(*a), n as nat),
                is_square(mat_of(*b), n as nat),
                forall|ii: int, jj: int|
                    0 <= ii < i && 0 <= jj < n ==> (#[trigger] mat_of(*a)[ii][jj]) == mat_of(
                        *b,
                    )[ii][jj],
                forall|jj: int|
                    0 <= jj < j ==> (#[trigger] mat_of(*a)[i as int][jj]) == mat_of(
                        *b,
                    )[i as int][jj],
        {
            proof {
                assert(a@.len() == n && b@.len() == n);
                assert(mat_of(*a)[i as int].len() == n && mat_of(*b)[i as int].len() == n);
            }
            if a[i][j] != b[i][j] {
                proof {
                    assert(mat_of(*a)[i as int][j as int] != mat_of(*b)[i as int][j as int]);
                }
                return false;
            }
        }
    }
    proof {
        assert(mat_of(*a) =~~= mat_of(*b));
    }
    true
}

/// Finish one benchmark iteration after the product is computed: run the
/// identity verification when the formula calls for it, and render the
/// record block.  Returns the block and whether a correctness-mismatch
/// notice must be reported (never for the difference formula).
pub fn process_result(
    formula: Formula,
    mat1: &Vec<Vec<i64>>,
    res: &Vec<Vec<i64>>,
    n: usize,
    alloc_micros: u64,
    calc_micros: u64,
) -> (r: (Vec<u8>, bool))
    requires
        is_square(mat_of(*mat1), n as nat),
        is_square(mat_of(*res), n as nat),
    ensures
        r.0@ == record_rep(n as nat, alloc_micros as nat, calc_micros as nat),
        r.1 <==> (formula == Formula::IdentityCheck && mat_of(*res) != mat_of(*mat1)),
{
    let mismatch = match formula {
        Formula::IdentityCheck => !matrices_equal(res, mat1, n),
        Formula::Difference => false,
    };
    let block = record_block(n, alloc_micros, calc_micros);
    (block, mismatch)
}

/// The fixed ordered list of problem sizes a default run benchmarks.
pub fn default_sizes() -> (r: Vec<usize>)
    ensures
        r@ == seq![10usize, 100, 1000, 2000, 3000, 4000, 5000, 6000, 7000, 8000, 9000, 10000],
{
    let mut v: Vec<usize> = Vec::new();
    v.push(10);
    v.push(100);
    v.push(1000);
    v.push(2000);
    v.push(3000);
    v.push(4000);
    v.push(5000);
    v.push(6000);
    v.push(7000);
    v.push(8000);
    v.push(9000);
    v.push(10000);
    proof {
        assert(v@ =~= seq![10usize, 100, 1000, 2000, 3000, 4000, 5000, 6000, 7000, 8000, 9000, 10000]);
    }
    v
}

/// Render the whole output artifact of a completed run: the record blocks
/// of all records, concatenated in order.
pub fn artifact(records: &Vec<BenchmarkRecord>) -> (r: Vec<u8>)
    ensures
        r@ == artifact_rep(records@),
{
    let mut out: Vec<u8> = Vec::new();
    for idx in 0..records.len()
        invariant
            out@ == artifact_rep(records@.take(idx as int)),
    {
        let rec = records[idx];
        let mut block = record_block(rec.n, rec.alloc_micros, rec.calc_micros);
        out.append(&mut block);
        proof {
            assert(records@.take(idx + 1).drop_last() =~= records@.take(idx as int));
            assert(records@.take(idx + 1).last() == records@[idx as int]);
        }
    }
    proof {
        assert(records@.take(records@.len() as int) =~= records@);
    }
    out
}

} // verus!
