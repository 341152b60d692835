//! A fixed-step ODE integration engine.
//!
//! Time is measured on an exact integer grid of ticks: the caller picks how long
//! one tick lasts and expresses the start time, the end time and the step size in
//! ticks. On that grid the batching, the clipping of the last step and the solve
//! loop are exact, so the engine lands on the end time with no rounding slop.
//! The numerical work of a step (Euler or RK4 on the caller's state) is done by
//! the system itself, through [`solver_trait::ODESystem`].
use vstd::prelude::*;

pub mod guarantees;
pub mod schedule;
pub mod solver_trait;

verus! {

/// Parameters of one integration: the current `time`, the end time `tend` and the
/// nominal `step`, all in ticks, and `ratio_step_output`, the number of stepper
/// calls between two recorded samples.
#[derive(Clone, Copy, Debug, PartialEq, Eq, Structural)]
pub struct ODEParam {
    pub time: u64,
    pub tend: u64,
    pub step: u64,
    pub ratio_step_output: usize,
}

/// The stepping methods the engine offers.
#[derive(Clone, Copy, Debug, PartialEq, Eq, Structural)]
pub enum ODESolver {
    RK4,
    Euler,
}

/// Why a set of parameters cannot be integrated.
#[derive(Clone, Copy, Debug, PartialEq, Eq, Structural)]
pub enum ParamError {
    /// The step size is not positive.
    NonPositiveStep,
    /// The number of stepper calls per sample is zero.
    ZeroRatio,
    /// The end time lies before the current time.
    EndBeforeStart,
}

impl ODEParam {
    /// Parameters that a solve can run on: a positive step, at least one stepper
    /// call per sample, and an end time not before the current time.
    pub open spec fn valid(self) -> bool {
        &&& self.step > 0
        &&& self.ratio_step_output > 0
        &&& self.time <= self.tend
    }

    /// The same parameters with the current time moved to `t`.
    pub open spec fn at(self, t: int) -> ODEParam {
        ODEParam { time: t as u64, ..self }
    }

    /// The fault reported for invalid parameters: the first one in the order
    /// step, ratio, end time.
    pub open spec fn first_fault(self) -> ParamError {
        if self.step == 0 {
            ParamError::NonPositiveStep
        } else if self.ratio_step_output == 0 {
            ParamError::ZeroRatio
        } else {
            ParamError::EndBeforeStart
        }
    }

    /// Checks that the parameters can be integrated.
    pub fn check(&self) -> (r: Result<(), ParamError>)
        ensures
            r is Ok <==> self.valid(),
            r matches Err(e) ==> e == self.first_fault(),
    {
        if self.step == 0 {
            Err(ParamError::NonPositiveStep)
        } else if self.ratio_step_output == 0 {
            Err(ParamError::ZeroRatio)
        } else if self.time > self.tend {
            Err(ParamError::EndBeforeStart)
        } else {
            Ok(())
        }
    }
}

} // verus!
