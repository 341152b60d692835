use odesolver::schedule::StepCall;
use odesolver::solver_trait::{datum, integrator, solve_ode, ODESystem};
use odesolver::{ODEParam, ODESolver, ParamError};

/// A system whose state is the distance it has been moved, and which keeps a
/// log of every stepper call it receives.
#[derive(Clone, Debug, PartialEq)]
struct Recorder {
    position: u64,
    log: Vec<(ODESolver, u64, u64)>,
}

impl Recorder {
    fn new() -> Recorder {
        Recorder { position: 0, log: Vec::new() }
    }
}

impl ODESystem for Recorder {
    type Sample = u64;

    fn stepped(self, solver: ODESolver, time: u64, step: u64) -> Recorder {
        let mut next = self;
        next.advance(solver, time, step);
        next
    }

    fn sample_at(self, time: u64) -> u64 {
        self.sample(time)
    }

    fn advance(&mut self, solver: ODESolver, time: u64, step: u64) {
        self.log.push((solver, time, step));
        self.position += step;
    }

    fn sample(&self, _time: u64) -> u64 {
        self.position
    }
}

fn param(time: u64, tend: u64, step: u64, ratio: usize) -> ODEParam {
    ODEParam { time, tend, step, ratio_step_output: ratio }
}

fn call(time: u64, step: u64) -> StepCall {
    StepCall { time, step }
}

#[test]
fn check_accepts_valid_parameters() {
    assert_eq!(param(0, 10, 1, 1).check(), Ok(()));
    assert_eq!(param(5, 5, 1, 1).check(), Ok(()));
}

#[test]
fn check_rejects_zero_step() {
    assert_eq!(param(0, 10, 0, 1).check(), Err(ParamError::NonPositiveStep));
    assert_eq!(param(0, 10, 0, 0).check(), Err(ParamError::NonPositiveStep));
}

#[test]
fn check_rejects_zero_ratio() {
    assert_eq!(param(0, 10, 1, 0).check(), Err(ParamError::ZeroRatio));
    assert_eq!(param(20, 10, 1, 0).check(), Err(ParamError::ZeroRatio));
}

#[test]
fn check_rejects_end_before_start() {
    assert_eq!(param(11, 10, 1, 1).check(), Err(ParamError::EndBeforeStart));
}

#[test]
fn solve_rejects_invalid_parameters() {
    assert!(matches!(
        solve_ode(Recorder::new(), param(0, 10, 0, 1), ODESolver::RK4),
        Err(ParamError::NonPositiveStep)
    ));
    assert!(matches!(
        solve_ode(Recorder::new(), param(0, 10, 1, 0), ODESolver::RK4),
        Err(ParamError::ZeroRatio)
    ));
    assert!(matches!(
        solve_ode(Recorder::new(), param(3, 2, 1, 1), ODESolver::Euler),
        Err(ParamError::EndBeforeStart)
    ));
}

#[test]
fn batch_clips_the_step_that_passes_the_end() {
    let mut sist = Recorder::new();
    let (next, calls) = integrator(&mut sist, param(0, 10, 3, 5), ODESolver::Euler);
    assert_eq!(next, param(10, 10, 3, 5));
    assert_eq!(calls, vec![call(0, 3), call(3, 3), call(6, 3), call(9, 1)]);
    assert_eq!(
        sist.log,
        vec![
            (ODESolver::Euler, 0, 3),
            (ODESolver::Euler, 3, 3),
            (ODESolver::Euler, 6, 3),
            (ODESolver::Euler, 9, 1)
        ]
    );
    assert_eq!(sist.position, 10);
}

#[test]
fn batch_takes_all_its_steps_when_the_end_is_far() {
    let mut sist = Recorder::new();
    let (next, calls) = integrator(&mut sist, param(4, 100, 3, 5), ODESolver::RK4);
    assert_eq!(next.time, 19);
    assert_eq!(calls, vec![call(4, 3), call(7, 3), call(10, 3), call(13, 3), call(16, 3)]);
}

#[test]
fn batch_landing_on_the_end_makes_a_zero_step() {
    let mut sist = Recorder::new();
    let (next, calls) = integrator(&mut sist, param(9, 10, 1, 3), ODESolver::RK4);
    assert_eq!(next.time, 10);
    assert_eq!(calls, vec![call(9, 1), call(10, 0)]);
}

#[test]
fn batch_repeated_from_the_same_start_gives_the_same_result() {
    let p = param(2, 50, 4, 6);
    let mut a = Recorder::new();
    let mut b = Recorder::new();
    let ra = integrator(&mut a, p, ODESolver::RK4);
    let rb = integrator(&mut b, p, ODESolver::RK4);
    assert_eq!(ra, rb);
    assert_eq!(a, b);
    assert_eq!(ra.0.time, 26);
}

#[test]
fn solve_records_one_sample_per_batch() {
    let (traj, sist, last) = solve_ode(Recorder::new(), param(0, 10, 1, 3), ODESolver::RK4).unwrap();
    assert_eq!(traj.times, vec![0, 3, 6, 9, 10]);
    assert_eq!(traj.steps, vec![0, 3, 3, 3, 2]);
    assert_eq!(traj.samples, vec![0, 3, 6, 9, 10]);
    assert_eq!(traj.len(), 5);
    assert_eq!(last, param(10, 10, 1, 3));
    assert_eq!(sist.log.len(), 11);
    assert_eq!(sist.log[10], (ODESolver::RK4, 10, 0));
}

#[test]
fn solve_sample_count_is_the_rounded_up_batch_count_plus_one() {
    // 1000 ticks in batches of 4 * 7 = 28 ticks: 36 batches, the last one short.
    let (traj, _, _) = solve_ode(Recorder::new(), param(0, 1000, 7, 4), ODESolver::Euler).unwrap();
    assert_eq!(traj.len(), 37);
    assert_eq!(traj.times[35], 980);
    assert_eq!(traj.times[36], 1000);
    // An exact multiple: 840 ticks make 30 batches.
    let (traj, _, _) = solve_ode(Recorder::new(), param(0, 840, 7, 4), ODESolver::Euler).unwrap();
    assert_eq!(traj.len(), 31);
}

#[test]
fn solve_starting_on_the_end_records_two_samples() {
    let (traj, sist, last) = solve_ode(Recorder::new(), param(5, 5, 1, 4), ODESolver::Euler).unwrap();
    assert_eq!(traj.times, vec![5, 5]);
    assert_eq!(traj.steps, vec![0, 1]);
    assert_eq!(sist.log, vec![(ODESolver::Euler, 5, 0)]);
    assert_eq!(last.time, 5);
}

#[test]
fn solve_with_unit_ratio_samples_after_every_step() {
    let (traj, sist, _) = solve_ode(Recorder::new(), param(0, 7, 2, 1), ODESolver::RK4).unwrap();
    assert_eq!(traj.times, vec![0, 2, 4, 6, 7]);
    assert_eq!(traj.steps, vec![0, 1, 1, 1, 1]);
    assert_eq!(sist.log.len() + 1, traj.len());
}

#[test]
fn solve_times_start_at_the_start_and_increase() {
    let (traj, _, _) = solve_ode(Recorder::new(), param(3, 1000, 7, 5), ODESolver::RK4).unwrap();
    assert_eq!(traj.times[0], 3);
    for w in traj.times.windows(2) {
        assert!(w[0] < w[1]);
    }
    // Each sample reports how far the system has moved since the start.
    for (t, s) in traj.times.iter().zip(traj.samples.iter()) {
        assert_eq!(*t - 3, *s);
    }
}

#[test]
fn solve_ends_on_the_end_time() {
    let (traj, _, last) = solve_ode(Recorder::new(), param(1, 1234, 10, 3), ODESolver::Euler).unwrap();
    assert_eq!(*traj.times.last().unwrap(), 1234);
    assert_eq!(last.time, 1234);
    assert_eq!(*traj.steps.last().unwrap(), 1);
}

#[test]
fn solve_reaches_the_largest_end_time_without_overflow() {
    let step = u64::MAX / 2;
    let (traj, sist, _) = solve_ode(Recorder::new(), param(0, u64::MAX, step, 3), ODESolver::RK4).unwrap();
    assert_eq!(traj.times, vec![0, u64::MAX]);
    assert_eq!(traj.steps, vec![0, 3]);
    assert_eq!(sist.log[2], (ODESolver::RK4, 2 * step, 1));
}

#[test]
fn solve_samples_the_system_as_each_batch_leaves_it() {
    let start = Recorder { position: 100, log: Vec::new() };
    let (traj, sist, _) = solve_ode(start, param(0, 9, 2, 2), ODESolver::Euler).unwrap();
    assert_eq!(traj.samples, vec![100, 104, 108, 109]);
    assert_eq!(sist.position, 109);
    assert_eq!(
        sist.log,
        vec![
            (ODESolver::Euler, 0, 2),
            (ODESolver::Euler, 2, 2),
            (ODESolver::Euler, 4, 2),
            (ODESolver::Euler, 6, 2),
            (ODESolver::Euler, 8, 1)
        ]
    );
}

#[test]
fn datum_puts_the_time_before_the_state() {
    assert_eq!(datum(1.5, &vec![2.0, 3.0]), vec![1.5, 2.0, 3.0]);
    assert_eq!(datum(7u64, &Vec::new()), vec![7u64]);
}
