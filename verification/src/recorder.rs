//! The result recorder: one four-line text block per benchmark record.
//!
//! A record block renders the problem size and the two measured durations.
//! Durations arrive as whole microsecond counts and are printed as seconds
//! with exactly six decimal places, so the rendering is pure integer work.
//! The model of a block is a byte sequence (the artifact is UTF-8 text).

use vstd::prelude::*;

verus! {

/// The ASCII digit for `v % 10`.
pub open spec fn digit(v: nat) -> u8 {
    (48 + v % 10) as u8
}

/// The decimal representation of `v`, most significant digit first, with no
/// leading zeros (a single `0` for zero).
pub open spec fn dec_rep(v: nat) -> Seq<u8>
    decreases v,
{
    if v < 10 {
        seq![digit(v)]
    } else {
        dec_rep(v / 10).push(digit(v))
    }
}

/// The last `width` decimal digits of `v`, zero-padded on the left to
/// exactly `width` digits.
pub open spec fn padded_rep(v: nat, width: nat) -> Seq<u8>
    decreases width,
{
    if width == 0 {
        Seq::empty()
    } else {
        padded_rep(v / 10, (width - 1) as nat).push(digit(v))
    }
}

/// A duration of `micros` microseconds rendered as seconds with six decimal
/// places: whole seconds, a dot, then the six-digit fraction.
pub open spec fn seconds_rep(micros: nat) -> Seq<u8> {
    dec_rep(micros / 1000000) + seq![46u8] + padded_rep(micros % 1000000, 6)
}

/// The UTF-8 bytes of `"N = "`.
pub open spec fn n_label() -> Seq<u8> {
    seq![78u8, 32, 61, 32]
}

/// The UTF-8 bytes of `"Tempo de alocação de memória: "`.
pub open spec fn alloc_label() -> Seq<u8> {
    seq![
        84u8, 101, 109, 112, 111, 32, 100, 101, 32, 97, 108, 111, 99, 97, 195, 167, 195, 163, 111,
        32, 100, 101, 32, 109, 101, 109, 195, 179, 114, 105, 97, 58, 32,
    ]
}

/// The UTF-8 bytes of `"Tempo de cálculo: "`.
pub open spec fn calc_label() -> Seq<u8> {
    seq![84u8, 101, 109, 112, 111, 32, 100, 101, 32, 99, 195, 161, 108, 99, 117, 108, 111, 58, 32]
}

/// The UTF-8 bytes of `" segundos"`.
pub open spec fn seconds_label() -> Seq<u8> {
    seq![32u8, 115, 101, 103, 117, 110, 100, 111, 115]
}

/// The four-line record block for one benchmark iteration: the size header,
/// the allocation-time line, the computation-time line, and a blank
/// separator line.
pub open spec fn record_rep(n: nat, alloc_micros: nat, calc_micros: nat) -> Seq<u8> {
    n_label() + dec_rep(n) + seq![10u8] + alloc_label() + seconds_rep(alloc_micros)
        + seconds_label() + seq![10u8] + calc_label() + seconds_rep(calc_micros) + seconds_label()
        + seq![10u8] + seq![10u8]
}

/// `s` holds no newline byte.
pub open spec fn no_newline(s: Seq<u8>) -> bool {
    forall|p: int| 0 <= p < s.len() ==> s[p] != 10
}

/// The number of adjacent newline pairs in `s`: positions `p` with
/// `s[p] == s[p + 1] == 10`.  Each record block ends in exactly one such
/// pair (its blank separator line) and holds none elsewhere, so this counts
/// the records of an artifact.
pub open spec fn blank_pairs(s: Seq<u8>) -> nat
    decreases s.len(),
{
    if s.len() < 2 {
        0
    } else {
        blank_pairs(s.drop_last()) + if s[s.len() - 1] == 10 && s[s.len() - 2] == 10 {
            1nat
        } else {
            0nat
        }
    }
}

proof fn lemma_blank_pairs_none(s: Seq<u8>)
    requires
        no_newline(s),
    ensures
        blank_pairs(s) == 0,
    decreases s.len(),
{
    if s.len() >= 2 {
        lemma_blank_pairs_none(s.drop_last());
    }
}

/// Newline pairs of a concatenation: those of each part, plus one more if
/// the seam itself is a newline pair.
pub proof fn lemma_blank_pairs_concat(x: Seq<u8>, y: Seq<u8>)
    requires
        x.len() > 0,
        y.len() > 0,
    ensures
        blank_pairs(x + y) == blank_pairs(x) + blank_pairs(y) + if x.last() == 10 && y.first()
            == 10 {
            1nat
        } else {
            0nat
        },
    decreases y.len(),
{
    if y.len() == 1 {
        assert((x + y).drop_last() =~= x);
    } else {
        lemma_blank_pairs_concat(x, y.drop_last());
        assert((x + y).drop_last() =~= x + y.drop_last());
        assert(y.drop_last().first() == y.first());
    }
}

proof fn lemma_dec_rep_digits(v: nat)
    ensures
        dec_rep(v).len() >= 1,
        forall|p: int| 0 <= p < dec_rep(v).len() ==> 48 <= #[trigger] dec_rep(v)[p] <= 57,
    decreases v,
{
    if v >= 10 {
        lemma_dec_rep_digits(v / 10);
    }
}

proof fn lemma_padded_rep_digits(v: nat, width: nat)
    ensures
        padded_rep(v, width).len() == width,
        forall|p: int| 0 <= p < width ==> 48 <= #[trigger] padded_rep(v, width)[p] <= 57,
    decreases width,
{
    if width > 0 {
        lemma_padded_rep_digits(v / 10, (width - 1) as nat);
    }
}

proof fn lemma_seconds_rep_no_newline(micros: nat)
    ensures
        seconds_rep(micros).len() >= 1,
        no_newline(seconds_rep(micros)),
{
    lemma_dec_rep_digits(micros / 1000000);
    lemma_padded_rep_digits(micros % 1000000, 6);
}

/// Every record block ends in exactly one blank-line separator and holds no
/// other newline pair; it opens with the byte `'N'` and closes with a
/// newline.
pub proof fn lemma_record_rep_blank_pairs(n: nat, alloc_micros: nat, calc_micros: nat)
    ensures
        blank_pairs(record_rep(n, alloc_micros, calc_micros)) == 1,
        record_rep(n, alloc_micros, calc_micros).len() >= 2,
        record_rep(n, alloc_micros, calc_micros).first() == 78,
        record_rep(n, alloc_micros, calc_micros).last() == 10,
{
    lemma_dec_rep_digits(n);
    lemma_seconds_rep_no_newline(alloc_micros);
    lemma_seconds_rep_no_newline(calc_micros);
    lemma_blank_pairs_none(n_label());
    lemma_blank_pairs_none(dec_rep(n));
    lemma_blank_pairs_none(alloc_label());
    lemma_blank_pairs_none(seconds_rep(alloc_micros));
    lemma_blank_pairs_none(seconds_label());
    lemma_blank_pairs_none(calc_label());
    lemma_blank_pairs_none(seconds_rep(calc_micros));
    let q1 = n_label();
    let q2 = q1 + dec_rep(n);
    let q3 = q2 + seq![10u8];
    let q4 = q3 + alloc_label();
    let q5 = q4 + seconds_rep(alloc_micros);
    let q6 = q5 + seconds_label();
    let q7 = q6 + seq![10u8];
    let q8 = q7 + calc_label();
    let q9 = q8 + seconds_rep(calc_micros);
    let q10 = q9 + seconds_label();
    let q11 = q10 + seq![10u8];
    let q12 = q11 + seq![10u8];
    lemma_blank_pairs_concat(q1, dec_rep(n));
    assert(q2.last() == dec_rep(n).last() && blank_pairs(q2) == 0);
    lemma_blank_pairs_concat(q2, seq![10u8]);
    assert(q3.last() == 10 && blank_pairs(q3) == 0);
    lemma_blank_pairs_concat(q3, alloc_label());
    assert(q4.last() == 32 && blank_pairs(q4) == 0);
    lemma_blank_pairs_concat(q4, seconds_rep(alloc_micros));
    assert(q5.last() == seconds_rep(alloc_micros).last() && blank_pairs(q5) == 0);
    lemma_blank_pairs_concat(q5, seconds_label());
    assert(q6.last() == 115 && blank_pairs(q6) == 0);
    lemma_blank_pairs_concat(q6, seq![10u8]);
    assert(q7.last() == 10 && blank_pairs(q7) == 0);
    lemma_blank_pairs_concat(q7, calc_label());
    assert(q8.last() == 32 && blank_pairs(q8) == 0);
    lemma_blank_pairs_concat(q8, seconds_rep(calc_micros));
    assert(q9.last() == seconds_rep(calc_micros).last() && blank_pairs(q9) == 0);
    lemma_blank_pairs_concat(q9, seconds_label());
    assert(q10.last() == 115 && blank_pairs(q10) == 0);
    lemma_blank_pairs_concat(q10, seq![10u8]);
    assert(q11.last() == 10 && blank_pairs(q11) == 0);
    lemma_blank_pairs_concat(q11, seq![10u8]);
    assert(q12.last() == 10 && blank_pairs(q12) == 1);
    assert(record_rep(n, alloc_micros, calc_micros) == q12);
    assert(q12.first() == 78);
}

fn push_dec(out: &mut Vec<u8>, v: u64)
    ensures
        final(out)@ == old(out)@ + dec_rep(v as nat),
    decreases v,
{
    if v >= 10 {
        push_dec(out, v / 10);
    }
    out.push((48 + (v % 10)) as u8);
    proof {
        assert(out@ =~= old(out)@ + dec_rep(v as nat));
    }
}

fn push_padded(out: &mut Vec<u8>, v: u64, width: usize)
    ensures
        final(out)@ == old(out)@ + padded_rep(v as nat, width as nat),
    decreases width,
{
    if width > 0 {
        push_padded(out, v / 10, width - 1);
        out.push((48 + (v % 10)) as u8);
    }
    proof {
        assert(out@ =~= old(out)@ + padded_rep(v as nat, width as nat));
    }
}

fn push_seconds(out: &mut Vec<u8>, micros: u64)
    ensures
        final(out)@ == old(out)@ + seconds_rep(micros as nat),
{
    push_dec(out, micros / 1000000);
    out.push(46);
    push_padded(out, micros % 1000000, 6);
    proof {
        assert(out@ =~= old(out)@ + seconds_rep(micros as nat));
    }
}

fn push_n_label(out: &mut Vec<u8>)
    ensures
        final(out)@ == old(out)@ + n_label(),
{
    out.push(78);
    out.push(32);
    out.push(61);
    out.push(32);
    proof {
        assert(out@ =~= old(out)@ + n_label());
    }
}

fn push_alloc_label(out: &mut Vec<u8>)
    ensures
        final(out)@ == old(out)@ + alloc_label(),
{
    out.push(84);
    out.push(101);
    out.push(109);
    out.push(112);
    out.push(111);
    out.push(32);
    out.push(100);
    out.push(101);
    out.push(32);
    out.push(97);
    out.push(108);
    out.push(111);
    out.push(99);
    out.push(97);
    out.push(195);
    out.push(167);
    out.push(195);
    out.push(163);
    out.push(111);
    out.push(32);
    out.push(100);
    out.push(101);
    out.push(32);
    out.push(109);
    out.push(101);
    out.push(109);
    out.push(195);
    out.push(179);
    out.push(114);
    out.push(105);
    out.push(97);
    out.push(58);
    out.push(32);
    proof {
        assert(out@ =~= old(out)@ + alloc_label());
    }
}

fn push_calc_label(out: &mut Vec<u8>)
    ensures
        final(out)@ == old(out)@ + calc_label(),
{
    out.push(84);
    out.push(101);
    out.push(109);
    out.push(112);
    out.push(111);
    out.push(32);
    out.push(100);
    out.push(101);
    out.push(32);
    out.push(99);
    out.push(195);
    out.push(161);
    out.push(108);
    out.push(99);
    out.push(117);
    out.push(108);
    out.push(111);
    out.push(58);
    out.push(32);
    proof {
        assert(out@ =~= old(out)@ + calc_label());
    }
}

fn push_seconds_label(out: &mut Vec<u8>)
    ensures
        final(out)@ == old(out)@ + seconds_label(),
{
    out.push(32);
    out.push(115);
    out.push(101);
    out.push(103);
    out.push(117);
    out.push(110);
    out.push(100);
    out.push(111);
    out.push(115);
    proof {
        assert(out@ =~= old(out)@ + seconds_label());
    }
}

/// Render the record block for one iteration: size `n`, allocation time and
/// computation time in microseconds.  The result is exactly the block the
/// output artifact stores for this iteration.
pub fn record_block(n: usize, alloc_micros: u64, calc_micros: u64) -> (r: Vec<u8>)
    ensures
        r@ == record_rep(n as nat, alloc_micros as nat, calc_micros as nat),
{
    let mut out: Vec<u8> = Vec::new();
    push_n_label(&mut out);
    push_dec(&mut out, n as u64);
    out.push(10);
    push_alloc_label(&mut out);
    push_seconds(&mut out, alloc_micros);
    push_seconds_label(&mut out);
    out.push(10);
    push_calc_label(&mut out);
    push_seconds(&mut out, calc_micros);
    push_seconds_label(&mut out);
    out.push(10);
    out.push(10);
    proof {
        assert(out@ =~= record_rep(n as nat, alloc_micros as nat, calc_micros as nat));
    }
    out
}

} // verus!
