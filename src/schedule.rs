//! The exact time schedule of an integration: which stepper calls a batch makes,
//! where each batch ends, and at which times the samples are recorded.
use vstd::prelude::*;

use crate::ODEParam;

verus! {

/// One stepper call: the time it starts from and the step it takes, in ticks.
#[derive(Clone, Copy, Debug, PartialEq, Eq, Structural)]
pub struct StepCall {
    pub time: u64,
    pub step: u64,
}

/// The smaller of two integers.
pub open spec fn min_int(a: int, b: int) -> int {
    if a <= b {
        a
    } else {
        b
    }
}

/// How many whole steps fit between the current time and the end time.
pub open spec fn steps_left(p: ODEParam) -> int {
    (p.tend - p.time) / (p.step as int)
}

/// The number of steps of nominal size a batch takes from `p.time`.
pub open spec fn full_steps(p: ODEParam) -> int {
    min_int(steps_left(p), p.ratio_step_output as int)
}

/// Whether the batch ends on a clipped step that lands on the end time.
pub open spec fn clips(p: ODEParam) -> bool {
    full_steps(p) < p.ratio_step_output
}

/// The number of stepper calls a batch makes.
pub open spec fn batch_len(p: ODEParam) -> nat {
    if clips(p) {
        (full_steps(p) + 1) as nat
    } else {
        full_steps(p) as nat
    }
}

/// The stepper calls of one batch, in order: `full_steps(p)` calls of the nominal
/// step, then, where the next one would pass the end time, one call whose step is
/// what is left up to the end time.
pub open spec fn batch_calls(p: ODEParam) -> Seq<StepCall> {
    let k = full_steps(p);
    Seq::new(
        batch_len(p),
        |j: int|
            if j < k {
                StepCall { time: (p.time + j * p.step) as u64, step: p.step }
            } else {
                StepCall { time: (p.time + k * p.step) as u64, step: (p.tend - p.time - k * p.step) as u64 }
            },
    )
}

/// Where a batch ends: `ratio_step_output` steps further on, or at the end time if
/// that comes first.
pub open spec fn batch_end(p: ODEParam) -> int {
    min_int(p.time + p.ratio_step_output * p.step, p.tend as int)
}

/// `i` whole steps of size `s` fit into `d` exactly when `i` is at most `d / s`.
pub proof fn lemma_steps_fit(d: int, s: int, i: int)
    requires
        d >= 0,
        s > 0,
        i >= 0,
    ensures
        i * s <= d <==> i <= d / s,
        (d / s) * s <= d,
        d < (d / s + 1) * s,
        d / s >= 0,
{
    let q = d / s;
    let r = d % s;
    assert(d == q * s + r && 0 <= r < s) by (nonlinear_arith)
        requires
            s > 0,
            q == d / s,
            r == d % s,
    ;
    assert(q >= 0) by (nonlinear_arith)
        requires
            d == q * s + r,
            0 <= r < s,
            d >= 0,
    ;
    if i <= q {
        assert(i * s <= q * s) by (nonlinear_arith)
            requires
                i <= q,
                s > 0,
        ;
    } else {
        assert(i * s >= (q + 1) * s) by (nonlinear_arith)
            requires
                i >= q + 1,
                s > 0,
        ;
    }
    assert((q + 1) * s == q * s + s) by (nonlinear_arith);
}

/// The whole steps of a batch fit before the end time; a batch that clips ends on
/// the end time, and one that does not ends after its whole steps.
pub proof fn lemma_batch_shape(p: ODEParam)
    requires
        p.valid(),
    ensures
        0 <= full_steps(p) <= p.ratio_step_output,
        full_steps(p) * p.step <= p.tend - p.time,
        clips(p) ==> batch_end(p) == p.tend,
        !clips(p) ==> batch_end(p) == p.time + full_steps(p) * p.step,
        batch_len(p) >= 1,
{
    let d = p.tend - p.time;
    let s = p.step as int;
    let n = p.ratio_step_output as int;
    lemma_steps_fit(d, s, n);
    lemma_steps_fit(d, s, full_steps(p));
    if clips(p) {
        assert(n * s > d);
    }
}

/// The time span of a batch that is not cut short: `ratio_step_output` steps.
pub open spec fn batch_span(p: ODEParam) -> int {
    p.ratio_step_output * p.step
}

/// The number of batches a solve runs: the span up to the end time divided by
/// the batch span, rounded up, and at least one (a solve that starts on its end
/// time still runs one batch, which makes a single step of size zero).
pub open spec fn batch_count(p: ODEParam) -> nat {
    let d = p.tend - p.time;
    if d <= 0 {
        1
    } else {
        ((d - 1) / batch_span(p) + 1) as nat
    }
}

/// The time of sample `j`: `j` batch spans after the start, or the end time if
/// that comes first.
pub open spec fn sample_time(p: ODEParam, j: int) -> int {
    min_int(p.time + j * batch_span(p), p.tend as int)
}

/// The times of all samples of a solve, the initial one first.
pub open spec fn sample_times(p: ODEParam) -> Seq<u64> {
    Seq::new(batch_count(p) + 1, |j: int| sample_time(p, j) as u64)
}

/// For each sample, the number of stepper calls made since the previous one
/// (zero for the initial sample).
pub open spec fn batch_sizes(p: ODEParam) -> Seq<usize> {
    Seq::new(
        batch_count(p) + 1,
        |j: int|
            if j == 0 {
                0usize
            } else {
                batch_len(p.at(sample_time(p, j - 1))) as usize
            },
    )
}

/// Sample times stay between the start and the end time, and the batch that
/// starts at sample `j` ends at sample `j + 1`.
pub proof fn lemma_next_sample(p: ODEParam, j: int)
    requires
        p.valid(),
        j >= 0,
    ensures
        p.time <= sample_time(p, j) <= p.tend,
        p.at(sample_time(p, j)).valid(),
        batch_end(p.at(sample_time(p, j))) == sample_time(p, j + 1),
        sample_time(p, j) <= sample_time(p, j + 1),
{
    let w = batch_span(p);
    assert(w >= 0 && j * w >= 0 && (j + 1) * w == j * w + w) by (nonlinear_arith)
        requires
            w == p.ratio_step_output * p.step,
            j >= 0,
    ;
}

/// From the first batch on, a sample lies on the end time exactly when at least
/// `batch_count(p)` batches have run.
pub proof fn lemma_reaches_end(p: ODEParam, j: int)
    requires
        p.valid(),
        j >= 1,
    ensures
        batch_count(p) >= 1,
        sample_time(p, j) == p.tend <==> j >= batch_count(p),
{
    let d = p.tend - p.time;
    let w = batch_span(p);
    assert(w > 0 && j * w >= 0) by (nonlinear_arith)
        requires
            w == p.ratio_step_output * p.step,
            p.ratio_step_output > 0,
            p.step > 0,
            j >= 1,
    ;
    if d > 0 {
        lemma_steps_fit(d - 1, w, j);
    }
}

} // verus!
