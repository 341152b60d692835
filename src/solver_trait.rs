//! The engine: a system that steps itself, the batch integrator that drives it
//! through one output interval, and the solve loop that records the trajectory.
use vstd::prelude::*;

use crate::schedule::{
    StepCall, batch_calls, batch_count, batch_end, batch_sizes, clips, full_steps,
    lemma_batch_shape, lemma_next_sample, lemma_reaches_end, lemma_steps_fit, sample_time,
    sample_times, steps_left,
};
use crate::{ODEParam, ODESolver, ParamError};

verus! {

/// A system defined by ODEs, as the engine drives it.
///
/// The implementor owns the state and the derivative function, and applies the
/// chosen stepping formula when asked to advance. `stepped` and `sample_at` are
/// the implementor's own model of one stepper call and of one sample.
pub trait ODESystem: Sized {
    /// What one recorded sample of the system holds.
    type Sample;

    /// The system after one call of `solver` from `time` over `step` ticks.
    spec fn stepped(self, solver: ODESolver, time: u64, step: u64) -> Self;

    /// The sample the system gives at `time`.
    spec fn sample_at(self, time: u64) -> Self::Sample;

    /// Advances the state by one call of `solver`, starting at `time` and taking a
    /// step of `step` ticks.
    fn advance(&mut self, solver: ODESolver, time: u64, step: u64)
        ensures
            *final(self) == old(self).stepped(solver, time, step),
    ;

    /// The sample to record for the current state, taken at `time`.
    fn sample(&self, time: u64) -> (r: Self::Sample)
        ensures
            r == self.sample_at(time),
    ;
}

/// The system after the given stepper calls, made in order.
pub open spec fn run_calls<S: ODESystem>(s: S, solver: ODESolver, calls: Seq<StepCall>) -> S
    decreases calls.len(),
{
    if calls.len() == 0 {
        s
    } else {
        let c = calls.last();
        run_calls(s, solver, calls.drop_last()).stepped(solver, c.time, c.step)
    }
}

/// The system after the first `j` batches of a solve with parameters `p`.
pub open spec fn run_batches<S: ODESystem>(s: S, solver: ODESolver, p: ODEParam, j: int) -> S
    decreases j,
{
    if j <= 0 {
        s
    } else {
        run_calls(
            run_batches(s, solver, p, j - 1),
            solver,
            batch_calls(p.at(sample_time(p, j - 1))),
        )
    }
}

/// Runs one batch: up to `ratio_step_output` stepper calls from `param.time`,
/// the last one clipped so that it lands on `param.tend` where a whole step
/// would pass it. Returns the parameters with the time advanced and the calls
/// that were made; the system ends as those calls, made in order, leave it.
/// The time and the calls depend on `param` alone.
pub fn integrator<S: ODESystem>(sist: &mut S, param: ODEParam, solver: ODESolver) -> (r: (
    ODEParam,
    Vec<StepCall>,
))
    requires
        param.valid(),
    ensures
        r.0 == param.at(batch_end(param)),
        r.1@ == batch_calls(param),
        *final(sist) == run_calls(*old(sist), solver, batch_calls(param)),
{
    let ghost start = *sist;
    let tend = param.tend;
    let step = param.step;
    let ratio = param.ratio_step_output;
    let mut time: u64 = param.time;
    let mut calls: Vec<StepCall> = Vec::new();
    let mut i: usize = 0;
    let ghost d = param.tend - param.time;
    proof {
        lemma_batch_shape(param);
    }
    while i < ratio
        invariant_except_break
            i <= ratio,
            i <= steps_left(param),
            time == param.time + i * step,
            calls@ == batch_calls(param).take(i as int),
        invariant
            *sist == run_calls(start, solver, calls@),
            param.valid(),
            tend == param.tend,
            step == param.step,
            ratio == param.ratio_step_output,
            d == param.tend - param.time,
            full_steps(param) * step <= d,
            0 <= full_steps(param) <= ratio,
            clips(param) ==> batch_end(param) == tend,
            !clips(param) ==> batch_end(param) == param.time + full_steps(param) * step,
        ensures
            time == batch_end(param),
            calls@ == batch_calls(param),
        decreases ratio - i,
    {
        proof {
            lemma_steps_fit(d, step as int, i as int);
            lemma_steps_fit(d, step as int, i + 1);
            assert((i + 1) * step == i * step + step) by (nonlinear_arith);
        }
        if step > tend - time {
            let last = tend - time;
            sist.advance(solver, time, last);
            let ghost before = calls@;
            calls.push(StepCall { time, step: last });
            assert(calls@.drop_last() =~= before);
            time = tend;
            proof {
                assert(i == full_steps(param));
                assert(calls@ =~= batch_calls(param));
            }
            break;
        }
        sist.advance(solver, time, step);
        let ghost before = calls@;
        calls.push(StepCall { time, step });
        assert(calls@.drop_last() =~= before);
        time = time + step;
        i = i + 1;
        assert(calls@ =~= batch_calls(param).take(i as int));
    }
    (ODEParam { time, ..param }, calls)
}

/// The flat record of one sample: the time first, then the state components in
/// index order.
pub fn datum<T: Copy>(time: T, state: &Vec<T>) -> (r: Vec<T>)
    ensures
        r@ == seq![time] + state@,
{
    let mut r: Vec<T> = Vec::new();
    r.push(time);
    let mut i: usize = 0;
    while i < state.len()
        invariant
            i <= state@.len(),
            r@ == seq![time] + state@.take(i as int),
        decreases state@.len() - i,
    {
        r.push(state[i]);
        i = i + 1;
        assert(r@ =~= seq![time] + state@.take(i as int));
    }
    assert(state@.take(i as int) =~= state@);
    r
}

/// The recorded output of a solve: one entry per sample in each column.
pub struct Trajectory<T> {
    /// The time of each sample, in ticks.
    pub times: Vec<u64>,
    /// What the system reported at each sample.
    pub samples: Vec<T>,
    /// The number of stepper calls made since the previous sample.
    pub steps: Vec<usize>,
}

impl<T> Trajectory<T> {
    /// The number of samples.
    pub fn len(&self) -> (r: usize)
        ensures
            r == self.times@.len(),
    {
        self.times.len()
    }
}

/// Solves the system from `param.time` to `param.tend`, recording the initial
/// sample and then one sample after each batch, until a batch lands on the end
/// time. Returns the trajectory, the system in its final state and the
/// parameters with the time moved to the end time; invalid parameters are
/// rejected before any step. Sample `k` is what the system gives after the
/// first `k` batches, at that sample's time.
pub fn solve_ode<S: ODESystem>(sist: S, param: ODEParam, solver: ODESolver) -> (r: Result<
    (Trajectory<S::Sample>, S, ODEParam),
    ParamError,
>)
    ensures
        r is Ok <==> param.valid(),
        r matches Err(e) ==> e == param.first_fault(),
        r matches Ok((traj, fin, last)) ==> {
            &&& traj.times@ == sample_times(param)
            &&& traj.steps@ == batch_sizes(param)
            &&& traj.samples@.len() == traj.times@.len()
            &&& forall|k: int|
                0 <= k < traj.samples@.len() ==> traj.samples@[k] == run_batches(
                    sist,
                    solver,
                    param,
                    k,
                ).sample_at(traj.times@[k])
            &&& fin == run_batches(sist, solver, param, batch_count(param) as int)
            &&& last == param.at(param.tend as int)
        },
{
    let ghost start = sist;
    match param.check() {
        Err(e) => {
            return Err(e);
        },
        Ok(()) => {},
    }
    let mut sist = sist;
    let mut times: Vec<u64> = Vec::new();
    let mut samples: Vec<S::Sample> = Vec::new();
    let mut steps: Vec<usize> = Vec::new();
    times.push(param.time);
    samples.push(sist.sample(param.time));
    steps.push(0);
    let mut cur = param;
    let ghost mut j: int = 0;
    proof {
        lemma_next_sample(param, 0);
        lemma_reaches_end(param, 1);
        assert(times@ =~= sample_times(param).take(1));
        assert(steps@ =~= batch_sizes(param).take(1));
    }
    loop
        invariant_except_break
            0 <= j < batch_count(param),
            cur == param.at(sample_time(param, j)),
            times@ == sample_times(param).take(j + 1),
            steps@ == batch_sizes(param).take(j + 1),
        invariant
            param.valid(),
            samples@.len() == times@.len(),
            sist == run_batches(start, solver, param, j),
            forall|k: int|
                0 <= k < samples@.len() ==> samples@[k] == run_batches(
                    start,
                    solver,
                    param,
                    k,
                ).sample_at(times@[k]),
        ensures
            times@ == sample_times(param),
            steps@ == batch_sizes(param),
            cur == param.at(param.tend as int),
            j == batch_count(param),
        decreases batch_count(param) - j,
    {
        proof {
            lemma_next_sample(param, j);
            lemma_next_sample(param, j + 1);
            lemma_reaches_end(param, j + 1);
        }
        let (next, calls) = integrator(&mut sist, cur, solver);
        cur = next;
        times.push(cur.time);
        samples.push(sist.sample(cur.time));
        steps.push(calls.len());
        proof {
            j = j + 1;
            assert(times@ =~= sample_times(param).take(j + 1));
            assert(steps@ =~= batch_sizes(param).take(j + 1));
        }
        if cur.time == param.tend {
            proof {
                assert(times@ =~= sample_times(param));
                assert(steps@ =~= batch_sizes(param));
            }
            break;
        }
    }
    Ok((Trajectory { times, samples, steps }, sist, cur))
}

} // verus!
