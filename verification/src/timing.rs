//! Timing samples and the relative-overhead computation.
//!
//! A run records one wall-clock duration per configuration and expresses each
//! as a signed percentage difference against one declared baseline. The
//! computation here is pure integer arithmetic over nanosecond counts, in
//! hundredths of a percent, so the report is a function of the recorded
//! samples and nothing else.

use crate::config::BenchConfig;
use vstd::arithmetic::div_mod::{lemma_div_is_ordered_by_denominator, lemma_div_of0,
    lemma_div_pos_is_pos};
use vstd::prelude::*;

verus! {

/// One benchmarked configuration paired with the elapsed wall-clock duration
/// of its full workload invocation, in nanoseconds. Immutable once recorded.
#[derive(Clone, Copy, Debug, PartialEq, Eq, Structural)]
pub struct TimingSample {
    /// The configuration the duration was measured under.
    pub config: BenchConfig,
    /// The elapsed wall-clock time of the run, in nanoseconds.
    pub nanos: u64,
}

/// The signed relative difference of `dur` against `baseline`, in hundredths
/// of a percent, rounded towards zero: positive means slower than the
/// baseline.
pub open spec fn delta_centipct(baseline: int, dur: int) -> int
    recommends
        baseline > 0,
{
    if dur >= baseline {
        ((dur - baseline) * 10000) / baseline
    } else {
        -(((baseline - dur) * 10000) / baseline)
    }
}

/// The signed relative difference of a measured duration against a baseline
/// duration, in hundredths of a percent: positive means slower than the
/// baseline, negative faster.
pub fn diff_pct(baseline: u64, dur: u64) -> (r: i128)
    requires
        baseline > 0,
    ensures
        r == delta_centipct(baseline as int, dur as int),
{
    if dur >= baseline {
        let diff: u128 = (dur - baseline) as u128;
        let q: u128 = (diff * 10000) / (baseline as u128);
        proof {
            lemma_div_is_ordered_by_denominator(diff as int * 10000, 1, baseline as int);
        }
        q as i128
    } else {
        let diff: u128 = (baseline - dur) as u128;
        let q: u128 = (diff * 10000) / (baseline as u128);
        proof {
            lemma_div_is_ordered_by_denominator(diff as int * 10000, 1, baseline as int);
        }
        -(q as i128)
    }
}

/// Law: the delta of a duration against itself is zero.
pub proof fn lemma_delta_zero(a: int)
    requires
        a > 0,
    ensures
        delta_centipct(a, a) == 0,
{
    lemma_div_of0(a);
}

/// Law: swapping sample and baseline flips the sign of the delta. Whichever
/// of the two durations is larger, the delta taken one way is non-negative
/// and taken the other way non-positive; rounding towards zero can make one
/// side zero, never change its sign.
pub proof fn lemma_delta_antisymmetric(a: int, b: int)
    requires
        a > 0,
        b > 0,
    ensures
        b >= a ==> delta_centipct(a, b) >= 0 && delta_centipct(b, a) <= 0,
        b <= a ==> delta_centipct(a, b) <= 0 && delta_centipct(b, a) >= 0,
{
    if b >= a {
        lemma_div_pos_is_pos((b - a) * 10000, a);
        if a < b {
            lemma_div_pos_is_pos((b - a) * 10000, b);
        } else {
            lemma_div_of0(b);
        }
    } else {
        lemma_div_pos_is_pos((a - b) * 10000, b);
        lemma_div_pos_is_pos((a - b) * 10000, a);
    }
}

/// One report row: every sample's delta against the same declared baseline,
/// in sample order. Each configuration in one report is compared against this
/// one baseline and no other.
pub fn overhead_row(samples: &Vec<TimingSample>, baseline: u64) -> (r: Vec<i128>)
    requires
        baseline > 0,
    ensures
        r@.len() == samples@.len(),
        forall|i: int|
            0 <= i < samples@.len() ==> r@[i] == delta_centipct(
                baseline as int,
                (#[trigger] samples@[i]).nanos as int,
            ),
{
    let mut r: Vec<i128> = Vec::new();
    let mut i: usize = 0;
    while i < samples.len()
        invariant
            baseline > 0,
            i <= samples@.len(),
            r@.len() == i,
            forall|k: int|
                0 <= k < i ==> r@[k] == delta_centipct(
                    baseline as int,
                    (#[trigger] samples@[k]).nanos as int,
                ),
        decreases samples@.len() - i,
    {
        let d = diff_pct(baseline, samples[i].nanos);
        r.push(d);
        i += 1;
    }
    r
}

} // verus!
