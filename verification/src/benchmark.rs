//! Choice of the recommended thread count from benchmark measurements.

use vstd::prelude::*;

verus! {

/// Batch size used by benchmark workers.
pub const BENCH_BATCH_SIZE: usize = 4096;

/// Keys generated with a number of threads during a measured time.
#[derive(Clone, Copy, Debug, PartialEq, Eq, Structural)]
pub struct BenchmarkSample {
    pub threads: usize,
    pub attempts: u64,
    pub elapsed_nanos: u64,
}

/// The rate of a sample as a fraction `num / den` keys per nanosecond; a sample with no
/// measured time has rate 0.
pub open spec fn rate_num(s: BenchmarkSample) -> int {
    if s.elapsed_nanos == 0 { 0 } else { s.attempts as int }
}

/// See `rate_num`.
pub open spec fn rate_den(s: BenchmarkSample) -> int {
    if s.elapsed_nanos == 0 { 1 } else { s.elapsed_nanos as int }
}

/// The rate of `a` is at most the rate of `b`.
pub open spec fn rate_le(a: BenchmarkSample, b: BenchmarkSample) -> bool {
    rate_num(a) * rate_den(b) <= rate_num(b) * rate_den(a)
}

fn rate_at_most(a: &BenchmarkSample, b: &BenchmarkSample) -> (le: bool)
    ensures
        le == rate_le(*a, *b),
{
    let an: u128 = if a.elapsed_nanos == 0 { 0 } else { a.attempts as u128 };
    let ad: u128 = if a.elapsed_nanos == 0 { 1 } else { a.elapsed_nanos as u128 };
    let bn: u128 = if b.elapsed_nanos == 0 { 0 } else { b.attempts as u128 };
    let bd: u128 = if b.elapsed_nanos == 0 { 1 } else { b.elapsed_nanos as u128 };
    assert(an * bd <= 0xFFFF_FFFF_FFFF_FFFF * 0xFFFF_FFFF_FFFF_FFFF) by (nonlinear_arith)
        requires an <= 0xFFFF_FFFF_FFFF_FFFF, bd <= 0xFFFF_FFFF_FFFF_FFFF;
    assert(bn * ad <= 0xFFFF_FFFF_FFFF_FFFF * 0xFFFF_FFFF_FFFF_FFFF) by (nonlinear_arith)
        requires bn <= 0xFFFF_FFFF_FFFF_FFFF, ad <= 0xFFFF_FFFF_FFFF_FFFF;
    an * bd <= bn * ad
}

proof fn lemma_rate_le_total(a: BenchmarkSample, b: BenchmarkSample)
    ensures
        rate_le(a, b) || rate_le(b, a),
{
}

proof fn lemma_rate_le_trans(a: BenchmarkSample, b: BenchmarkSample, c: BenchmarkSample)
    requires
        rate_le(a, b),
        rate_le(b, c),
    ensures
        rate_le(a, c),
{
    let (an, ad, bn, bd, cn, cd) = (rate_num(a), rate_den(a), rate_num(b), rate_den(b), rate_num(c), rate_den(c));
    assert(an * cd <= cn * ad) by (nonlinear_arith)
        requires
            an * bd <= bn * ad,
            bn * cd <= cn * bd,
            ad > 0, bd > 0, cd > 0, an >= 0, bn >= 0, cn >= 0;
}

/// The sample with the highest rate; among equally fast samples the last one (as
/// `Iterator::max_by` picks). `None` when there are no samples.
pub fn recommend(samples: &Vec<BenchmarkSample>) -> (best: Option<usize>)
    ensures
        best is None <==> samples@.len() == 0,
        best matches Some(i) ==> {
            &&& i < samples@.len()
            &&& forall|j: int| 0 <= j < samples@.len() ==> rate_le(#[trigger] samples@[j], samples@[i as int])
            &&& forall|j: int| i < j < samples@.len() ==> !rate_le(samples@[i as int], #[trigger] samples@[j])
        },
{
    let n = samples.len();
    if n == 0 {
        return None;
    }
    let mut best: usize = 0;
    let mut k: usize = 1;
    while k < n
        invariant
            n == samples@.len(),
            1 <= k <= n,
            best < k,
            forall|j: int| 0 <= j < k ==> rate_le(#[trigger] samples@[j], samples@[best as int]),
            forall|j: int| best < j < k ==> !rate_le(samples@[best as int], #[trigger] samples@[j]),
        decreases n - k,
    {
        if rate_at_most(&samples[best], &samples[k]) {
            proof {
                assert forall|j: int| 0 <= j < k + 1 implies rate_le(#[trigger] samples@[j], samples@[k as int]) by {
                    if j < k {
                        lemma_rate_le_trans(samples@[j], samples@[best as int], samples@[k as int]);
                    }
                }
            }
            best = k;
        } else {
            proof {
                lemma_rate_le_total(samples@[best as int], samples@[k as int]);
            }
        }
        k = k + 1;
    }
    Some(best)
}

} // verus!
