//! Ending a solve once it has run for long enough.

use vstd::prelude::*;
use crate::score::{ScoreCalculator, ScoreTrait};
use crate::solver::{
    EventListener, ListenerFailure, Solution, SolverEventListener, SolverScope,
    SolverTerminationCondition, TerminationCondition,
};

verus! {

/// Ends a solve that has run for longer than a given time.
///
/// The condition reads no clock. Whoever runs the solve tells it how long
/// the solve has run, in the unit of the limit.
#[derive(Clone, Copy, Debug)]
pub struct TimeBasedTermination {
    pub terminate_time: u64,
    pub current_run_length: u64,
}

impl TimeBasedTermination {
    /// A condition with the limit `terminate_time`, for a solve that has
    /// not run yet.
    pub fn new(terminate_time: u64) -> (condition: Self)
        ensures
            condition.terminate_time == terminate_time,
            condition.current_run_length == 0,
            !condition.timed_out(),
    {
        TimeBasedTermination { terminate_time, current_run_length: 0 }
    }

    /// The solve has run for longer than the limit.
    pub open spec fn timed_out(&self) -> bool {
        self.current_run_length > self.terminate_time
    }

    /// Takes note of how long the solve has run.
    pub fn record_run_length(&mut self, run_length: u64)
        ensures
            final(self).terminate_time == old(self).terminate_time,
            final(self).current_run_length == run_length,
    {
        self.current_run_length = run_length;
    }
}

impl TerminationCondition for TimeBasedTermination {
    open spec fn may_say(&self, terminate: bool) -> bool {
        terminate == self.timed_out()
    }

    fn should_terminate(&self) -> (terminate: bool) {
        self.current_run_length > self.terminate_time
    }
}

impl EventListener for TimeBasedTermination {

}

impl<SolutionType, ScoreType, CalculatorType> SolverEventListener<
    SolutionType,
    ScoreType,
    CalculatorType,
> for TimeBasedTermination where
    ScoreType: ScoreTrait,
    SolutionType: Solution<ScoreType> + Clone,
    CalculatorType: ScoreCalculator<SolutionType, ScoreType>,
 {
    open spec fn may_hear_solving_started(
        &self,
        solver_scope: SolverScope<SolutionType, ScoreType, CalculatorType>,
        heard: bool,
    ) -> bool {
        heard
    }

    open spec fn may_hear_solving_ended(
        &self,
        solver_scope: SolverScope<SolutionType, ScoreType, CalculatorType>,
        heard: bool,
    ) -> bool {
        heard
    }

    fn solving_started(
        &self,
        solver_scope: &mut SolverScope<SolutionType, ScoreType, CalculatorType>,
    ) -> (heard: Result<(), ListenerFailure>) {
        Ok(())
    }

    fn solving_ended(
        &self,
        solver_scope: &mut SolverScope<SolutionType, ScoreType, CalculatorType>,
    ) -> (heard: Result<(), ListenerFailure>) {
        Ok(())
    }
}

impl<SolutionType, ScoreType, CalculatorType> SolverTerminationCondition<
    SolutionType,
    ScoreType,
    CalculatorType,
> for TimeBasedTermination where
    ScoreType: ScoreTrait,
    SolutionType: Solution<ScoreType> + Clone,
    CalculatorType: ScoreCalculator<SolutionType, ScoreType>,
 {

}

} // verus!
