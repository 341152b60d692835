//! What every solve guarantees about its recorded samples, stated over the
//! schedule that `solve_ode` follows.
use vstd::prelude::*;

use crate::schedule::{
    batch_calls, batch_count, batch_end, batch_sizes, batch_span, lemma_next_sample,
    lemma_reaches_end, lemma_steps_fit, sample_time, sample_times,
};
use crate::solver_trait::{run_calls, ODESystem};
use crate::{ODEParam, ODESolver};

verus! {

/// The sum of a sequence of step counts.
pub open spec fn total_steps(s: Seq<usize>) -> int
    decreases s.len(),
{
    if s.len() == 0 {
        0
    } else {
        total_steps(s.drop_last()) + s.last()
    }
}

/// The last sample of a solve is taken at the end time.
pub proof fn lemma_last_sample_at_end(p: ODEParam)
    requires
        p.valid(),
    ensures
        sample_times(p).len() >= 2,
        sample_times(p).last() == p.tend,
{
    lemma_reaches_end(p, 1);
    lemma_reaches_end(p, batch_count(p) as int);
}

/// The first sample is taken at the start time, and sample times never go back;
/// when the start lies before the end they strictly increase.
pub proof fn lemma_sample_times_ordered(p: ODEParam)
    requires
        p.valid(),
    ensures
        sample_times(p)[0] == p.time,
        forall|i: int, k: int|
            0 <= i <= k < sample_times(p).len() ==> sample_times(p)[i] <= sample_times(p)[k],
        p.time < p.tend ==> forall|i: int, k: int|
            0 <= i < k < sample_times(p).len() ==> sample_times(p)[i] < sample_times(p)[k],
{
    let w = batch_span(p);
    lemma_next_sample(p, 0);
    assert forall|i: int, k: int| 0 <= i <= k < sample_times(p).len() implies {
        &&& sample_times(p)[i] <= sample_times(p)[k]
        &&& (p.time < p.tend && i < k ==> sample_times(p)[i] < sample_times(p)[k])
    } by {
        lemma_next_sample(p, i);
        lemma_next_sample(p, k);
        assert(i * w <= k * w && (i < k ==> i * w < k * w)) by (nonlinear_arith)
            requires
                w == p.ratio_step_output * p.step,
                p.ratio_step_output > 0,
                p.step > 0,
                0 <= i <= k,
        ;
        if i >= 1 {
            lemma_reaches_end(p, i);
        }
    }
}

/// A solve records the initial sample plus one per batch: the span from start
/// to end divided by the batch span `ratio_step_output * step`, rounded up.
/// The one exception is a solve that starts on its end time, which still runs a
/// batch and so records two samples.
pub proof fn lemma_sample_count(p: ODEParam)
    requires
        p.valid(),
    ensures
        p.time == p.tend ==> sample_times(p).len() == 2,
        p.time < p.tend ==> {
            let n = sample_times(p).len() as int;
            let d = p.tend - p.time;
            let w = p.ratio_step_output * p.step;
            (n - 2) * w < d <= (n - 1) * w
        },
{
    if p.time < p.tend {
        let d = p.tend - p.time;
        let w = batch_span(p);
        let c = batch_count(p) as int;
        assert(w > 0) by (nonlinear_arith)
            requires
                w == p.ratio_step_output * p.step,
                p.ratio_step_output > 0,
                p.step > 0,
        ;
        lemma_steps_fit(d - 1, w, c - 1);
    }
}

/// A batch run twice, from equal systems with equal parameters, makes the same
/// calls, ends at the same time and leaves equal systems.
pub proof fn lemma_batch_repeatable<S: ODESystem>(a: S, b: S, p: ODEParam, q: ODEParam, solver: ODESolver)
    requires
        a == b,
        p == q,
    ensures
        batch_calls(p) == batch_calls(q),
        batch_end(p) == batch_end(q),
        run_calls(a, solver, batch_calls(p)) == run_calls(b, solver, batch_calls(q)),
{
}

/// With one stepper call per sample, every batch makes exactly one call, so a
/// trajectory holds one sample more than the number of calls.
pub proof fn lemma_unit_ratio(p: ODEParam)
    requires
        p.valid(),
        p.ratio_step_output == 1,
    ensures
        forall|j: int|
            0 <= j < batch_count(p) ==> batch_calls(p.at(#[trigger] sample_time(p, j))).len() == 1,
        forall|j: int| 1 <= j < batch_sizes(p).len() ==> batch_sizes(p)[j] == 1,
        total_steps(batch_sizes(p)) + 1 == sample_times(p).len(),
{
    let s = batch_sizes(p);
    assert forall|j: int| 0 <= j < batch_count(p) implies batch_calls(
        p.at(#[trigger] sample_time(p, j)),
    ).len() == 1 by {
        lemma_next_sample(p, j);
    }
    assert forall|j: int| 1 <= j < s.len() implies s[j] == 1 by {
        lemma_next_sample(p, j - 1);
    }
    assert(s[0] == 0);
    lemma_ones_after_first(s, s.len() as int);
    assert(s.take(s.len() as int) =~= s);
}

/// A prefix of length `k >= 1` of a sequence whose entries after the first are
/// all one sums to its first entry plus `k - 1`.
proof fn lemma_ones_after_first(s: Seq<usize>, k: int)
    requires
        1 <= k <= s.len(),
        forall|j: int| 1 <= j < s.len() ==> s[j] == 1,
    ensures
        total_steps(s.take(k)) == s[0] + k - 1,
    decreases k,
{
    assert(s.take(k).last() == s[k - 1]);
    if k == 1 {
        assert(s.take(1).drop_last() =~= Seq::<usize>::empty());
        assert(total_steps(Seq::<usize>::empty()) == 0);
    } else {
        lemma_ones_after_first(s, k - 1);
        assert(s.take(k).drop_last() =~= s.take(k - 1));
    }
}

} // verus!
