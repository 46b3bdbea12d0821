//! Processors that run instructions until a plan says they are done.
use vstd::prelude::*;

verus! {

/// How long a processor runs: until it has spent `max_cycles` cycles, or run
/// `max_instructions` instructions, whichever comes first. A limit that is `None` never stops
/// the run.
pub struct ExecutionPlan {
    pub max_cycles: Option<usize>,
    pub max_instructions: Option<usize>,
}

/// Whether `value` has reached the limit `limit`: never when there is no limit.
pub open spec fn reached(limit: Option<usize>, value: usize) -> bool {
    match limit {
        Some(max) => value >= max,
        None => false,
    }
}

impl Default for ExecutionPlan {
    /// A plan without limits.
    fn default() -> (r: Self)
        ensures
            r.max_cycles is None,
            r.max_instructions is None,
    {
        ExecutionPlan { max_cycles: None, max_instructions: None }
    }
}

impl ExecutionPlan {
    /// A plan that runs for `value` cycles.
    pub fn with_max_cycles(value: usize) -> (r: Self)
        ensures
            r.max_cycles == Some(value),
            r.max_instructions is None,
    {
        Self { max_cycles: Some(value), ..Default::default() }
    }

    /// A plan that runs `value` instructions.
    pub fn with_max_instructions(value: usize) -> (r: Self)
        ensures
            r.max_cycles is None,
            r.max_instructions == Some(value),
    {
        Self { max_instructions: Some(value), ..Default::default() }
    }

    /// Whether a run that got as far as `result` has completed this plan.
    pub fn is_completed(&self, result: &ExecutionResult) -> (r: bool)
        ensures
            r == (reached(self.max_cycles, result.total_cycles) || reached(
                self.max_instructions,
                result.total_instructions,
            )),
    {
        if Self::limit_reached(self.max_cycles, result.total_cycles) {
            return true;
        }
        if Self::limit_reached(self.max_instructions, result.total_instructions) {
            return true;
        }
        false
    }

    /// Whether `value` has reached the limit `limit`.
    fn limit_reached(limit: Option<usize>, value: usize) -> (r: bool)
        ensures
            r == reached(limit, value),
    {
        match limit {
            Some(max) => value >= max,
            None => false,
        }
    }
}

/// How far a run went: the cycles it spent and the instructions it ran.
pub struct ExecutionResult {
    pub total_cycles: usize,
    pub total_instructions: usize,
}

impl Default for ExecutionResult {
    /// A run that has not started.
    fn default() -> (r: Self)
        ensures
            r.total_cycles == 0,
            r.total_instructions == 0,
    {
        ExecutionResult { total_cycles: 0, total_instructions: 0 }
    }
}

/// A executor that can execute instructions according to a plan.
pub trait Processor {
    /// Execute instructions according to the given plan.
    fn execute(&mut self, plan: &ExecutionPlan) -> ExecutionResult;
}

} // verus!
