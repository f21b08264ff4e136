//! The solver runtime: moves and their undo, the tracker of the current
//! and the best solution, the scopes that hand the shared state down
//! through a search, and the loop that runs the phases.

use rand_chacha::ChaCha8Rng;
use uuid::Uuid;
use vstd::prelude::*;
use crate::ids::uuid_bits;
use crate::random::{seeded, seeded_generator};
use crate::score::{MalformedSolution, ScoreCalculator, ScoreTrait};

verus! {

/// A candidate solution of some problem. It can tell who it is.
pub trait Solution<ScoreType: ScoreTrait> {
    /// The identity of the solution, as a number.
    spec fn identity(&self) -> u128;

    fn get_solution_uuid(&self) -> (id: Uuid)
        ensures
            uuid_bits(id) == self.identity(),
    ;
}

/// Marks the types that are entities of a problem: objects with planning
/// variables.
pub trait Entity {

}

/// A reversible change to a solution.
///
/// A move can tell whether it applies to a solution (`doable`) and what
/// the solution is after it (`applied`). Doing a move hands out the move
/// that undoes it: applied to the changed solution, the undo move gives
/// back the solution as it was, in every variable. A problem with moves
/// of several kinds has one move type with a variant for each.
pub trait ExecutableMove<SolutionType, ScoreType>: Sized where
    SolutionType: Solution<ScoreType>,
    ScoreType: ScoreTrait,
 {
    /// The move can be done on `solution`.
    spec fn doable(&self, solution: SolutionType) -> bool;

    /// What `solution` is after the move.
    spec fn applied(&self, solution: SolutionType) -> SolutionType;

    /// Does the move without looking whether it can be done, and returns
    /// the move that undoes it. Callers look first, or call `do_move`.
    fn do_move_unchecked(&self, solution: &mut SolutionType) -> (undo: Self)
        requires
            self.doable(*old(solution)),
        ensures
            *final(solution) == self.applied(*old(solution)),
            undo.doable(*final(solution)),
            undo.applied(*final(solution)) == *old(solution),
    ;

    /// The move that would undo this one, without doing anything.
    fn get_undo_move(&self, solution: &SolutionType) -> (undo: Self)
        requires
            self.doable(*solution),
        ensures
            undo.doable(self.applied(*solution)),
            undo.applied(self.applied(*solution)) == *solution,
    ;

    /// A cheap look at whether the move can be done.
    fn is_doable(&self, solution: &SolutionType) -> (r: bool)
        ensures
            r == self.doable(*solution),
    ;

    /// Does the move if it can be done, and returns its undo move; leaves
    /// the solution alone and returns nothing if it cannot.
    fn do_move(&self, solution: &mut SolutionType) -> (undo: Option<Self>)
        ensures
            undo.is_some() == self.doable(*old(solution)),
            !self.doable(*old(solution)) ==> *final(solution) == *old(solution),
            self.doable(*old(solution)) ==> {
                &&& *final(solution) == self.applied(*old(solution))
                &&& undo.unwrap().doable(*final(solution))
                &&& undo.unwrap().applied(*final(solution)) == *old(solution)
            },
    {
        if !self.is_doable(solution) {
            return None;
        }
        Some(self.do_move_unchecked(solution))
    }
}

/// `undo` undoes `done` on `before`: it can be done on what `done` made
/// of `before`, and gives `before` back. This is what `do_move_unchecked`,
/// `get_undo_move` and `do_move` promise of the move they return.
pub open spec fn undoes<SolutionType, ScoreType, MoveType>(
    undo: MoveType,
    done: MoveType,
    before: SolutionType,
) -> bool where
    SolutionType: Solution<ScoreType>,
    ScoreType: ScoreTrait,
    MoveType: ExecutableMove<SolutionType, ScoreType>,
 {
    &&& undo.doable(done.applied(before))
    &&& undo.applied(done.applied(before)) == before
}

/// Undo correctness: a doable move followed by the undo move it handed
/// out restores the solution in every variable, and with it the score
/// that any calculator computes.
pub proof fn lemma_undo_restores_solution_and_score<SolutionType, ScoreType, MoveType, Calculator>(
    done: MoveType,
    undo: MoveType,
    before: SolutionType,
    calculator: Calculator,
) where
    SolutionType: Solution<ScoreType>,
    ScoreType: ScoreTrait,
    MoveType: ExecutableMove<SolutionType, ScoreType>,
    Calculator: ScoreCalculator<SolutionType, ScoreType>,

    requires
        done.doable(before),
        undoes(undo, done, before),
    ensures
        undo.doable(done.applied(before)),
        undo.applied(done.applied(before)) == before,
        calculator.score_of(undo.applied(done.applied(before))) == calculator.score_of(before),
{
}

/// `score` takes the place of `best`: there is no best yet, or `score`
/// ranks strictly above it.
pub open spec fn improves<ScoreType: ScoreTrait>(best: Option<ScoreType>, score: ScoreType) -> bool {
    match best {
        None => true,
        Some(held) => score.better_spec(&held),
    }
}

/// The best score once `score` was seen.
pub open spec fn next_best<ScoreType: ScoreTrait>(
    best: Option<ScoreType>,
    score: ScoreType,
) -> Option<ScoreType> {
    if improves(best, score) {
        Some(score)
    } else {
        best
    }
}

/// The best score once a run of scores was seen, one after the other.
pub open spec fn best_after<ScoreType: ScoreTrait>(
    best: Option<ScoreType>,
    scores: Seq<ScoreType>,
) -> Option<ScoreType>
    decreases scores.len(),
{
    if scores.len() == 0 {
        best
    } else {
        next_best(best_after(best, scores.drop_last()), scores.last())
    }
}

/// `later` is at least as good as `earlier`: where there was a best score,
/// there still is one, and it is the same or ranks above.
pub open spec fn not_worse<ScoreType: ScoreTrait>(
    later: Option<ScoreType>,
    earlier: Option<ScoreType>,
) -> bool {
    match earlier {
        None => true,
        Some(was) => match later {
            Some(is) => is == was || is.better_spec(&was),
            None => false,
        },
    }
}

/// Best monotonicity: whatever scores are seen in whatever order, the
/// best score never gets worse.
pub proof fn lemma_best_never_worsens<ScoreType: ScoreTrait>(
    best: Option<ScoreType>,
    scores: Seq<ScoreType>,
)
    ensures
        not_worse(best_after(best, scores), best),
    decreases scores.len(),
{
    if scores.len() > 0 {
        let before = best_after(best, scores.drop_last());
        lemma_best_never_worsens(best, scores.drop_last());
        if improves(before, scores.last()) {
            match (best, before) {
                (Some(was), Some(held)) => {
                    if held != was {
                        ScoreType::better_is_transitive(scores.last(), held, was);
                    }
                },
                _ => {},
            }
        }
    }
}

/// Keeps the current solution and the best solution seen, each with its
/// score.
///
/// The current solution changes with every accepted move; the best one
/// only when the current score ranks strictly above the best score, or
/// when there is no best yet.
pub struct SolutionTracker<SolutionType, ScoreType, CalculatorType> where
    ScoreType: ScoreTrait,
    SolutionType: Solution<ScoreType> + Clone,
    CalculatorType: ScoreCalculator<SolutionType, ScoreType>,
 {
    score_calculator: CalculatorType,
    best_solution: Option<SolutionType>,
    best_solution_score: Option<ScoreType>,
    current_solution: SolutionType,
    current_solution_score: Option<ScoreType>,
}

impl<SolutionType, ScoreType, CalculatorType> SolutionTracker<
    SolutionType,
    ScoreType,
    CalculatorType,
> where
    ScoreType: ScoreTrait + Copy,
    SolutionType: Solution<ScoreType> + Clone,
    CalculatorType: ScoreCalculator<SolutionType, ScoreType>,
 {
    /// The calculator that the tracker works with.
    pub closed spec fn calculator(&self) -> CalculatorType {
        self.score_calculator
    }

    /// What the tracker's calculator makes of `solution`.
    pub open spec fn score_of(&self, solution: SolutionType) -> Result<
        ScoreType,
        MalformedSolution,
    > {
        self.calculator().score_of(solution)
    }

    pub closed spec fn current(&self) -> SolutionType {
        self.current_solution
    }

    /// The score held for the current solution, if one is held.
    pub closed spec fn current_score(&self) -> Option<ScoreType> {
        self.current_solution_score
    }

    pub closed spec fn best(&self) -> Option<SolutionType> {
        self.best_solution
    }

    pub closed spec fn best_score(&self) -> Option<ScoreType> {
        self.best_solution_score
    }

    /// There is a best solution exactly when there is a best score.
    pub closed spec fn well_formed(&self) -> bool {
        self.best_solution.is_some() == self.best_solution_score.is_some()
    }

    /// `self` works with the calculator that `other` works with, and so
    /// scores every solution as `other` does.
    pub open spec fn same_calculator(&self, other: &Self) -> bool {
        self.calculator() == other.calculator()
    }

    /// A tracker that starts from `current_solution`, with no score held
    /// and no best solution yet.
    pub fn new(
        score_calculator: CalculatorType,
        current_solution: SolutionType,
    ) -> (tracker: Self)
        ensures
            tracker.well_formed(),
            tracker.current() == current_solution,
            tracker.current_score().is_none(),
            tracker.best().is_none(),
            tracker.best_score().is_none(),
            tracker.calculator() == score_calculator,
    {
        SolutionTracker {
            score_calculator,
            best_solution: None,
            best_solution_score: None,
            current_solution,
            current_solution_score: None,
        }
    }

    /// The score of the current solution: the one held, or else the one
    /// that the calculator computes, which is then held.
    pub fn get_current_solution_score(&mut self) -> (score: Result<ScoreType, MalformedSolution>)
        requires
            old(self).well_formed(),
        ensures
            final(self).well_formed(),
            final(self).same_calculator(old(self)),
            final(self).current() == old(self).current(),
            final(self).best() == old(self).best(),
            final(self).best_score() == old(self).best_score(),
            score == match old(self).current_score() {
                Some(held) => Ok(held),
                None => old(self).score_of(old(self).current()),
            },
            final(self).current_score() == match score {
                Ok(known) => Some(known),
                Err(_) => None,
            },
    {
        match self.current_solution_score {
            Some(held) => Ok(held),
            None => {
                match self.score_calculator.calculate_score(&self.current_solution) {
                    Ok(computed) => {
                        self.current_solution_score = Some(computed);
                        Ok(computed)
                    },
                    Err(error) => Err(error),
                }
            },
        }
    }

    pub fn borrow_current_solution(&self) -> (solution: &SolutionType)
        ensures
            *solution == self.current(),
    {
        &self.current_solution
    }

    /// The best solution seen so far, if there is one.
    pub fn borrow_best_solution(&self) -> (solution: Option<&SolutionType>)
        ensures
            solution == match self.best() {
                Some(best) => Some(&best),
                None => None,
            },
    {
        self.best_solution.as_ref()
    }

    /// The score of the best solution seen so far, if there is one.
    pub fn get_best_solution_score(&self) -> (score: Option<ScoreType>)
        ensures
            score == self.best_score(),
    {
        self.best_solution_score
    }

    /// Takes `solution` as the current solution. A score that comes with
    /// it is held as it is; without one the calculator is asked. Where the
    /// calculator fails, the failure is returned and nothing changes.
    pub fn set_current_solution(
        &mut self,
        solution: SolutionType,
        precalculated_score: Option<ScoreType>,
    ) -> (done: Result<(), MalformedSolution>)
        requires
            old(self).well_formed(),
        ensures
            final(self).well_formed(),
            final(self).same_calculator(old(self)),
            final(self).best() == old(self).best(),
            final(self).best_score() == old(self).best_score(),
            match precalculated_score {
                Some(given) => done.is_ok() && final(self).current() == solution && final(self).current_score() == Some(given),
                None => match old(self).score_of(solution) {
                    Ok(computed) => done.is_ok() && final(self).current() == solution && final(self).current_score() == Some(computed),
                    Err(error) => done == Err::<(), MalformedSolution>(error) && final(self).current() == old(self).current() && final(self).current_score() == old(self).current_score(),
                },
            },
    {
        let score = match precalculated_score {
            Some(given) => given,
            None => match self.score_calculator.calculate_score(&solution) {
                Ok(computed) => computed,
                Err(error) => {
                    return Err(error);
                },
            },
        };
        self.current_solution = solution;
        self.current_solution_score = Some(score);
        Ok(())
    }

    /// Takes `solution` as the current solution, computes its score, and
    /// takes a copy of it as the best solution if it improves on the best
    /// score. Returns whether it did. Where the calculator fails, the
    /// failure is returned and nothing changes.
    pub fn set_current_and_best(&mut self, solution: SolutionType) -> (improved: Result<
        bool,
        MalformedSolution,
    >)
        requires
            old(self).well_formed(),
        ensures
            final(self).well_formed(),
            final(self).same_calculator(old(self)),
            not_worse(final(self).best_score(), old(self).best_score()),
            match old(self).score_of(solution) {
                Ok(score) => {
                    &&& improved == Ok::<bool, MalformedSolution>(
                        improves(old(self).best_score(), score),
                    )
                    &&& final(self).current() == solution
                    &&& final(self).current_score() == Some(score)
                    &&& final(self).best_score() == next_best(old(self).best_score(), score)
                    &&& if improves(old(self).best_score(), score) {
                        final(self).best().is_some() && cloned(solution, final(self).best().unwrap())
                    } else {
                        final(self).best() == old(self).best()
                    }
                },
                Err(error) => {
                    &&& improved == Err::<bool, MalformedSolution>(error)
                    &&& final(self).current() == old(self).current()
                    &&& final(self).current_score() == old(self).current_score()
                    &&& final(self).best() == old(self).best()
                    &&& final(self).best_score() == old(self).best_score()
                },
            },
    {
        let score = match self.score_calculator.calculate_score(&solution) {
            Ok(computed) => computed,
            Err(error) => {
                return Err(error);
            },
        };
        let improved = match self.best_solution_score {
            None => true,
            Some(held) => score.better_than(&held),
        };
        if improved {
            self.best_solution = Some(solution.clone());
            self.best_solution_score = Some(score);
        }
        self.current_solution = solution;
        self.current_solution_score = Some(score);
        Ok(improved)
    }

    /// Asks the calculator for the score of any solution.
    pub fn calculate_score(&self, solution: &SolutionType) -> (score: Result<
        ScoreType,
        MalformedSolution,
    >)
        ensures
            score == self.score_of(*solution),
    {
        self.score_calculator.calculate_score(solution)
    }
}

impl<SolutionType, ScoreType, CalculatorType> Clone for SolutionTracker<
    SolutionType,
    ScoreType,
    CalculatorType,
> where
    ScoreType: ScoreTrait + Copy,
    SolutionType: Solution<ScoreType> + Clone,
    CalculatorType: ScoreCalculator<SolutionType, ScoreType> + Clone,
 {
    /// A tracker of its own, with copies of the calculator, of the current
    /// and of the best solution. The copy holds the best score, and no
    /// score for the current solution: it computes that when it is asked.
    fn clone(&self) -> (copy: Self)
        ensures
            cloned(self.calculator(), copy.calculator()),
            cloned(self.current(), copy.current()),
            copy.current_score().is_none(),
            copy.best_score() == self.best_score(),
            match self.best() {
                Some(best) => copy.best().is_some() && cloned(best, copy.best().unwrap()),
                None => copy.best().is_none(),
            },
            self.well_formed() ==> copy.well_formed(),
    {
        let best_solution = match &self.best_solution {
            Some(best) => Some(best.clone()),
            None => None,
        };
        SolutionTracker {
            score_calculator: self.score_calculator.clone(),
            best_solution,
            best_solution_score: self.best_solution_score,
            current_solution: self.current_solution.clone(),
            current_solution_score: None,
        }
    }
}

/// The state that a whole solve shares: the one random generator and the
/// solution tracker. Every other scope reaches this state through the
/// chain of its parents; it is never copied.
pub struct SolverScope<SolutionType, ScoreType, CalculatorType> where
    ScoreType: ScoreTrait,
    SolutionType: Solution<ScoreType> + Clone,
    CalculatorType: ScoreCalculator<SolutionType, ScoreType>,
 {
    pub thread_rng: ChaCha8Rng,
    pub solution_tracker: SolutionTracker<SolutionType, ScoreType, CalculatorType>,
}

/// The scope of one phase. It holds its solver scope for as long as it
/// lives.
pub struct PhaseScope<'a, SolutionType, ScoreType, CalculatorType> where
    ScoreType: ScoreTrait,
    SolutionType: Solution<ScoreType> + Clone,
    CalculatorType: ScoreCalculator<SolutionType, ScoreType>,
 {
    pub solver_scope: &'a mut SolverScope<SolutionType, ScoreType, CalculatorType>,
}

/// The scope of one step of a phase. It holds its phase scope for as long
/// as it lives.
pub struct StepScope<'a, 'b, SolutionType, ScoreType, CalculatorType> where
    ScoreType: ScoreTrait,
    SolutionType: Solution<ScoreType> + Clone,
    CalculatorType: ScoreCalculator<SolutionType, ScoreType>,
 {
    pub phase_scope: &'a mut PhaseScope<'b, SolutionType, ScoreType, CalculatorType>,
}

/// The scope of one move of a step. It holds its step scope for as long as
/// it lives.
pub struct MoveScope<'a, 'b, 'c, SolutionType, ScoreType, CalculatorType> where
    ScoreType: ScoreTrait,
    SolutionType: Solution<ScoreType> + Clone,
    CalculatorType: ScoreCalculator<SolutionType, ScoreType>,
 {
    pub step_scope: &'a mut StepScope<'b, 'c, SolutionType, ScoreType, CalculatorType>,
}

impl<SolutionType, ScoreType, CalculatorType> SolverScope<
    SolutionType,
    ScoreType,
    CalculatorType,
> where
    ScoreType: ScoreTrait + Copy,
    SolutionType: Solution<ScoreType> + Clone,
    CalculatorType: ScoreCalculator<SolutionType, ScoreType>,
 {
    /// A scope around `solution_tracker`, with a generator made of
    /// `random_seed`.
    pub fn new(
        random_seed: u64,
        solution_tracker: SolutionTracker<SolutionType, ScoreType, CalculatorType>,
    ) -> (scope: Self)
        ensures
            scope.thread_rng == seeded(random_seed),
            scope.solution_tracker == solution_tracker,
    {
        SolverScope { thread_rng: seeded_generator(random_seed), solution_tracker }
    }
}

impl<'a, SolutionType, ScoreType, CalculatorType> PhaseScope<
    'a,
    SolutionType,
    ScoreType,
    CalculatorType,
> where
    ScoreType: ScoreTrait + Copy,
    SolutionType: Solution<ScoreType> + Clone,
    CalculatorType: ScoreCalculator<SolutionType, ScoreType>,
 {
    /// The random generator of the solve.
    pub fn random_generator(&mut self) -> (generator: &mut ChaCha8Rng)
        ensures
            *generator == old(self).solver_scope.thread_rng,
            final(self).solver_scope.thread_rng == *final(generator),
            final(self).solver_scope.solution_tracker == old(self).solver_scope.solution_tracker,
            *final(final(self).solver_scope) == *final(old(self).solver_scope),
    {
        &mut self.solver_scope.thread_rng
    }

    /// The solution tracker of the solve.
    pub fn solution_tracker(&mut self) -> (tracker: &mut SolutionTracker<
        SolutionType,
        ScoreType,
        CalculatorType,
    >)
        ensures
            *tracker == old(self).solver_scope.solution_tracker,
            final(self).solver_scope.solution_tracker == *final(tracker),
            final(self).solver_scope.thread_rng == old(self).solver_scope.thread_rng,
            *final(final(self).solver_scope) == *final(old(self).solver_scope),
    {
        &mut self.solver_scope.solution_tracker
    }
}

impl<'a, 'b, SolutionType, ScoreType, CalculatorType> StepScope<
    'a,
    'b,
    SolutionType,
    ScoreType,
    CalculatorType,
> where
    ScoreType: ScoreTrait + Copy,
    SolutionType: Solution<ScoreType> + Clone,
    CalculatorType: ScoreCalculator<SolutionType, ScoreType>,
 {
    /// The random generator of the solve.
    pub fn random_generator(&mut self) -> (generator: &mut ChaCha8Rng)
        ensures
            *generator == old(self).phase_scope.solver_scope.thread_rng,
            final(self).phase_scope.solver_scope.thread_rng == *final(generator),
            final(self).phase_scope.solver_scope.solution_tracker == old(self).phase_scope.solver_scope.solution_tracker,
            *final(final(self).phase_scope) == *final(old(self).phase_scope),
            *final(final(self).phase_scope.solver_scope) == *final(old(self).phase_scope.solver_scope),
    {
        &mut self.phase_scope.solver_scope.thread_rng
    }

    /// The solution tracker of the solve.
    pub fn solution_tracker(&mut self) -> (tracker: &mut SolutionTracker<
        SolutionType,
        ScoreType,
        CalculatorType,
    >)
        ensures
            *tracker == old(self).phase_scope.solver_scope.solution_tracker,
            final(self).phase_scope.solver_scope.solution_tracker == *final(tracker),
            final(self).phase_scope.solver_scope.thread_rng == old(self).phase_scope.solver_scope.thread_rng,
            *final(final(self).phase_scope) == *final(old(self).phase_scope),
            *final(final(self).phase_scope.solver_scope) == *final(old(self).phase_scope.solver_scope),
    {
        &mut self.phase_scope.solver_scope.solution_tracker
    }
}

/// Yields the candidates of one step: moves, entities or values.
///
/// A selector never changes a solution. It may draw from the random
/// generator of the scope, and from no other source of randomness: what it
/// yields, and what it leaves of the generator, is a function of the
/// solution and the scope it was given (`selection`).
pub trait Selector<SolutionType, InnerType: ?Sized, ScoreType, CalculatorType> where
    SolutionType: Solution<ScoreType> + Clone,
    ScoreType: ScoreTrait,
    CalculatorType: ScoreCalculator<SolutionType, ScoreType>,
 {
    /// The candidates that the selector yields, in their order, and the
    /// generator as it leaves it.
    spec fn selection(
        &self,
        max_amount: u32,
        solution: SolutionType,
        scope: SolverScope<SolutionType, ScoreType, CalculatorType>,
    ) -> (Vec<Box<InnerType>>, ChaCha8Rng);

    /// Up to `max_amount` candidates for the current step.
    fn get_vec(
        &self,
        max_amount: u32,
        solution: &SolutionType,
        step_scope: &mut StepScope<'_, '_, SolutionType, ScoreType, CalculatorType>,
    ) -> (candidates: Vec<Box<InnerType>>)
        ensures
            candidates@.len() <= max_amount,
            candidates == self.selection(
                max_amount,
                *solution,
                *old(step_scope).phase_scope.solver_scope,
            ).0,
            final(step_scope).phase_scope.solver_scope.thread_rng == self.selection(
                max_amount,
                *solution,
                *old(step_scope).phase_scope.solver_scope,
            ).1,
            final(step_scope).phase_scope.solver_scope.solution_tracker == old(step_scope).phase_scope.solver_scope.solution_tracker,
            *final(final(step_scope).phase_scope) == *final(old(step_scope).phase_scope),
            *final(final(step_scope).phase_scope.solver_scope) == *final(old(step_scope).phase_scope.solver_scope),
    ;
}

/// A selector of moves.
pub trait MoveSelector<SolutionType, MoveType, ScoreType, CalculatorType>: Selector<
    SolutionType,
    MoveType,
    ScoreType,
    CalculatorType,
> where
    SolutionType: Solution<ScoreType> + Clone,
    MoveType: ExecutableMove<SolutionType, ScoreType>,
    ScoreType: ScoreTrait,
    CalculatorType: ScoreCalculator<SolutionType, ScoreType>,
 {

}

/// A selector of entities.
pub trait EntitySelector<SolutionType, EntityType, ScoreType, CalculatorType>: Selector<
    SolutionType,
    EntityType,
    ScoreType,
    CalculatorType,
> where
    SolutionType: Solution<ScoreType> + Clone,
    EntityType: Entity,
    ScoreType: ScoreTrait,
    CalculatorType: ScoreCalculator<SolutionType, ScoreType>,
 {

}

/// A selector of values.
pub trait ValueSelector<SolutionType, ValueType, ScoreType, CalculatorType>: Selector<
    SolutionType,
    ValueType,
    ScoreType,
    CalculatorType,
> where
    SolutionType: Solution<ScoreType> + Clone,
    ScoreType: ScoreTrait,
    CalculatorType: ScoreCalculator<SolutionType, ScoreType>,
 {

}

/// Selector determinism: two invocations of a selector on the same
/// solution, in scopes whose generators were seeded alike and whose
/// trackers are the same, yield the same candidates in the same order and
/// leave the same generator.
pub proof fn lemma_selection_is_reproducible<
    SolutionType,
    InnerType: ?Sized,
    ScoreType,
    CalculatorType,
    SelectorType,
>(
    selector: SelectorType,
    max_amount: u32,
    solution: SolutionType,
    first: SolverScope<SolutionType, ScoreType, CalculatorType>,
    second: SolverScope<SolutionType, ScoreType, CalculatorType>,
    first_seed: u64,
    second_seed: u64,
) where
    SolutionType: Solution<ScoreType> + Clone,
    ScoreType: ScoreTrait,
    CalculatorType: ScoreCalculator<SolutionType, ScoreType>,
    SelectorType: Selector<SolutionType, InnerType, ScoreType, CalculatorType>,

    requires
        first_seed == second_seed,
        first.thread_rng == seeded(first_seed),
        second.thread_rng == seeded(second_seed),
        first.solution_tracker == second.solution_tracker,
    ensures
        selector.selection(max_amount, solution, first) == selector.selection(
            max_amount,
            solution,
            second,
        ),
{
}

/// Says when a loop has to stop. The answer may depend on the world
/// outside, on the time that has passed, for one: `may_say` holds of every
/// answer that the condition can give as it is.
pub trait TerminationCondition {
    /// The condition can answer `terminate`.
    spec fn may_say(&self, terminate: bool) -> bool;

    fn should_terminate(&self) -> (terminate: bool)
        ensures
            self.may_say(terminate),
    ;
}

/// Raised by a listener that could not do its work. Listeners only
/// observe: their failures are counted and otherwise ignored.
#[derive(Clone, Copy, Debug, PartialEq, Eq, Structural)]
pub struct ListenerFailure;

/// Marks the types that listen to the life cycle of a solve.
pub trait EventListener {

}

/// Hears when a solve starts and ends. A listener leaves the scope as it
/// found it.
pub trait SolverEventListener<SolutionType, ScoreType, CalculatorType>: EventListener where
    ScoreType: ScoreTrait,
    SolutionType: Solution<ScoreType> + Clone,
    CalculatorType: ScoreCalculator<SolutionType, ScoreType>,
 {
    /// Told that a solve starts in `solver_scope`, the listener may do
    /// its work (`heard`) or fail.
    spec fn may_hear_solving_started(
        &self,
        solver_scope: SolverScope<SolutionType, ScoreType, CalculatorType>,
        heard: bool,
    ) -> bool;

    /// Told that a solve has ended in `solver_scope`, the listener may do
    /// its work (`heard`) or fail.
    spec fn may_hear_solving_ended(
        &self,
        solver_scope: SolverScope<SolutionType, ScoreType, CalculatorType>,
        heard: bool,
    ) -> bool;

    fn solving_started(
        &self,
        solver_scope: &mut SolverScope<SolutionType, ScoreType, CalculatorType>,
    ) -> (heard: Result<(), ListenerFailure>)
        ensures
            *final(solver_scope) == *old(solver_scope),
            self.may_hear_solving_started(*old(solver_scope), heard.is_ok()),
    ;

    fn solving_ended(
        &self,
        solver_scope: &mut SolverScope<SolutionType, ScoreType, CalculatorType>,
    ) -> (heard: Result<(), ListenerFailure>)
        ensures
            *final(solver_scope) == *old(solver_scope),
            self.may_hear_solving_ended(*old(solver_scope), heard.is_ok()),
    ;
}

/// Hears when a phase starts and ends. A listener leaves the scope as it
/// found it.
pub trait PhaseEventListener<SolutionType, ScoreType, CalculatorType>: EventListener where
    ScoreType: ScoreTrait,
    SolutionType: Solution<ScoreType> + Clone,
    CalculatorType: ScoreCalculator<SolutionType, ScoreType>,
 {
    /// Told that a phase starts, with the solver scope as it is, the
    /// listener may do its work (`heard`) or fail.
    spec fn may_hear_phase_started(
        &self,
        solver_scope: SolverScope<SolutionType, ScoreType, CalculatorType>,
        heard: bool,
    ) -> bool;

    /// Told that a phase has ended, with the solver scope as it is, the
    /// listener may do its work (`heard`) or fail.
    spec fn may_hear_phase_ended(
        &self,
        solver_scope: SolverScope<SolutionType, ScoreType, CalculatorType>,
        heard: bool,
    ) -> bool;

    fn phase_started(
        &self,
        phase_scope: &mut PhaseScope<'_, SolutionType, ScoreType, CalculatorType>,
    ) -> (heard: Result<(), ListenerFailure>)
        ensures
            *final(phase_scope).solver_scope == *old(phase_scope).solver_scope,
            *final(final(phase_scope).solver_scope) == *final(old(phase_scope).solver_scope),
            self.may_hear_phase_started(*old(phase_scope).solver_scope, heard.is_ok()),
    ;

    fn phase_ended(
        &self,
        phase_scope: &mut PhaseScope<'_, SolutionType, ScoreType, CalculatorType>,
    ) -> (heard: Result<(), ListenerFailure>)
        ensures
            *final(phase_scope).solver_scope == *old(phase_scope).solver_scope,
            *final(final(phase_scope).solver_scope) == *final(old(phase_scope).solver_scope),
            self.may_hear_phase_ended(*old(phase_scope).solver_scope, heard.is_ok()),
    ;
}

/// Marks the listeners to the steps of a phase.
pub trait StepEventListener: EventListener {

}

/// Marks the listeners to the moves of a step.
pub trait MoveEventListener: EventListener {

}

/// The condition that ends a solve. It hears when the solve starts and
/// ends.
pub trait SolverTerminationCondition<
    SolutionType,
    ScoreType,
    CalculatorType,
>: TerminationCondition + SolverEventListener<SolutionType, ScoreType, CalculatorType> where
    ScoreType: ScoreTrait,
    SolutionType: Solution<ScoreType> + Clone,
    CalculatorType: ScoreCalculator<SolutionType, ScoreType>,
 {

}

/// The condition that ends a phase. It hears when the phase starts and
/// ends.
pub trait PhaseTerminationCondition<
    SolutionType,
    ScoreType,
    CalculatorType,
>: TerminationCondition + PhaseEventListener<SolutionType, ScoreType, CalculatorType> where
    ScoreType: ScoreTrait,
    SolutionType: Solution<ScoreType> + Clone,
    CalculatorType: ScoreCalculator<SolutionType, ScoreType>,
 {

}

/// How many listeners failed, given for each whether it did its work.
pub open spec fn failures_among(heard: Seq<bool>) -> nat
    decreases heard.len(),
{
    if heard.len() == 0 {
        0
    } else {
        failures_among(heard.drop_last()) + if heard.last() {
            0nat
        } else {
            1nat
        }
    }
}

/// Every listener to the solve was told once that the solve starts (or,
/// if not `starting`, that it has ended) in `solver_scope`, and `heard`
/// holds for each whether it did its work.
pub open spec fn solve_was_heard<SolutionType, ScoreType, CalculatorType>(
    listeners: Seq<Box<dyn SolverEventListener<SolutionType, ScoreType, CalculatorType>>>,
    solver_scope: SolverScope<SolutionType, ScoreType, CalculatorType>,
    starting: bool,
    heard: Seq<bool>,
) -> bool where
    ScoreType: ScoreTrait,
    SolutionType: Solution<ScoreType> + Clone,
    CalculatorType: ScoreCalculator<SolutionType, ScoreType>,
 {
    &&& heard.len() == listeners.len()
    &&& forall|i: int|
        #![trigger listeners[i]]
        0 <= i < listeners.len() ==> if starting {
            listeners[i].may_hear_solving_started(solver_scope, heard[i])
        } else {
            listeners[i].may_hear_solving_ended(solver_scope, heard[i])
        }
}

/// Every listener to the phase was told once that the phase starts (or,
/// if not `starting`, that it has ended), with the solver scope as it is,
/// and `heard` holds for each whether it did its work.
pub open spec fn phase_was_heard<SolutionType, ScoreType, CalculatorType>(
    listeners: Seq<Box<dyn PhaseEventListener<SolutionType, ScoreType, CalculatorType>>>,
    solver_scope: SolverScope<SolutionType, ScoreType, CalculatorType>,
    starting: bool,
    heard: Seq<bool>,
) -> bool where
    ScoreType: ScoreTrait,
    SolutionType: Solution<ScoreType> + Clone,
    CalculatorType: ScoreCalculator<SolutionType, ScoreType>,
 {
    &&& heard.len() == listeners.len()
    &&& forall|i: int|
        #![trigger listeners[i]]
        0 <= i < listeners.len() ==> if starting {
            listeners[i].may_hear_phase_started(solver_scope, heard[i])
        } else {
            listeners[i].may_hear_phase_ended(solver_scope, heard[i])
        }
}

/// One more listener that did its work adds no failure; one that failed
/// adds one.
pub proof fn lemma_failures_among_push(heard: Seq<bool>, next: bool)
    ensures
        failures_among(heard.push(next)) == failures_among(heard) + if next {
            0nat
        } else {
            1nat
        },
        failures_among(heard) <= heard.len(),
    decreases heard.len(),
{
    assert(heard.push(next).drop_last() =~= heard);
    if heard.len() > 0 {
        lemma_failures_among_push(heard.drop_last(), heard.last());
        assert(heard.drop_last().push(heard.last()) =~= heard);
    }
}

/// A stage of the search. A phase works on the solver scope: it draws from
/// the generator and reports solutions to the tracker. It never lets go of
/// the best solution, and it hands a failure of the score calculator on.
pub trait Phase<SolutionType, ScoreType, CalculatorType> where
    ScoreType: ScoreTrait + Copy,
    SolutionType: Solution<ScoreType> + Clone,
    CalculatorType: ScoreCalculator<SolutionType, ScoreType>,
 {
    /// Run on the scope `before`, the phase may leave the scope `after`,
    /// and end well (`succeeded`) or with a failure of the calculator.
    spec fn may_leave(
        &self,
        before: SolverScope<SolutionType, ScoreType, CalculatorType>,
        after: SolverScope<SolutionType, ScoreType, CalculatorType>,
        succeeded: bool,
    ) -> bool;

    fn do_phase(
        &self,
        solver_scope: &mut SolverScope<SolutionType, ScoreType, CalculatorType>,
    ) -> (outcome: Result<(), MalformedSolution>)
        requires
            old(solver_scope).solution_tracker.well_formed(),
        ensures
            self.may_leave(*old(solver_scope), *final(solver_scope), outcome.is_ok()),
            final(solver_scope).solution_tracker.well_formed(),
            final(solver_scope).solution_tracker.same_calculator(
                &old(solver_scope).solution_tracker,
            ),
            not_worse(
                final(solver_scope).solution_tracker.best_score(),
                old(solver_scope).solution_tracker.best_score(),
            ),
    ;
}

/// Being at least as good carries over a chain of two.
pub proof fn lemma_not_worse_is_transitive<ScoreType: ScoreTrait>(
    last: Option<ScoreType>,
    middle: Option<ScoreType>,
    first: Option<ScoreType>,
)
    requires
        not_worse(last, middle),
        not_worse(middle, first),
    ensures
        not_worse(last, first),
{
    match (last, middle, first) {
        (Some(c), Some(b), Some(a)) => {
            if c != b && b != a {
                ScoreType::better_is_transitive(c, b, a);
            }
        },
        _ => {},
    }
}

/// What a phase is made of: the selector of its moves, the condition that
/// ends it, and those who listen to it.
#[verifier::reject_recursive_types(SolutionType)]
#[verifier::reject_recursive_types(MoveType)]
#[verifier::reject_recursive_types(ScoreType)]
#[verifier::reject_recursive_types(CalculatorType)]
pub struct PhaseConfig<SolutionType, MoveType, ScoreType, CalculatorType> where
    SolutionType: Solution<ScoreType> + Clone,
    MoveType: ExecutableMove<SolutionType, ScoreType>,
    ScoreType: ScoreTrait,
    CalculatorType: ScoreCalculator<SolutionType, ScoreType>,
 {
    pub move_selector: Box<dyn MoveSelector<SolutionType, MoveType, ScoreType, CalculatorType>>,
    pub termination: Box<dyn PhaseTerminationCondition<SolutionType, ScoreType, CalculatorType>>,
    pub phase_listeners: Vec<
        Box<dyn PhaseEventListener<SolutionType, ScoreType, CalculatorType>>,
    >,
}

/// The solver: its phases in their order, the condition that ends the
/// solve, those who listen to it, the scope that the solve works in, and
/// the seed of its random generator.
#[verifier::reject_recursive_types(SolutionType)]
#[verifier::reject_recursive_types(ScoreType)]
#[verifier::reject_recursive_types(CalculatorType)]
pub struct Solver<SolutionType, ScoreType, CalculatorType, TerminationType> where
    ScoreType: ScoreTrait + Copy,
    SolutionType: Solution<ScoreType> + Clone,
    CalculatorType: ScoreCalculator<SolutionType, ScoreType>,
    TerminationType: SolverTerminationCondition<SolutionType, ScoreType, CalculatorType>,
 {
    pub phase_list: Vec<Box<dyn Phase<SolutionType, ScoreType, CalculatorType>>>,
    pub termination: TerminationType,
    pub solver_listeners: Vec<
        Box<dyn SolverEventListener<SolutionType, ScoreType, CalculatorType>>,
    >,
    pub solver_scope: SolverScope<SolutionType, ScoreType, CalculatorType>,
    pub random_seed: u64,
}

/// `trace` is a run of the phases: it holds the scope before the first
/// phase and the scope that each phase left that ran, in their order. The
/// phases ran from the first on without a gap, each on the scope that the
/// one before it left; all but the last of them ended well, and so did the
/// last if `succeeded`. Before each phase that ran the termination
/// condition said to go on; where phases are left over after a run that
/// ended well, it said to stop.
pub open spec fn run_trace<SolutionType, ScoreType, CalculatorType, TerminationType>(
    phases: Seq<Box<dyn Phase<SolutionType, ScoreType, CalculatorType>>>,
    termination: TerminationType,
    trace: Seq<SolverScope<SolutionType, ScoreType, CalculatorType>>,
    succeeded: bool,
) -> bool where
    ScoreType: ScoreTrait + Copy,
    SolutionType: Solution<ScoreType> + Clone,
    CalculatorType: ScoreCalculator<SolutionType, ScoreType>,
    TerminationType: SolverTerminationCondition<SolutionType, ScoreType, CalculatorType>,
 {
    &&& 1 <= trace.len() <= phases.len() + 1
    &&& !succeeded ==> trace.len() >= 2
    &&& trace.len() >= 2 ==> termination.may_say(false)
    &&& succeeded && trace.len() <= phases.len() ==> termination.may_say(true)
    &&& forall|i: int|
        #![trigger phases[i]]
        0 <= i < trace.len() - 1 ==> phases[i].may_leave(
            trace[i],
            trace[i + 1],
            i < trace.len() - 2 || succeeded,
        )
}

/// `start` is the scope that a solve begins with: a generator fresh from
/// the seed, and the tracker as it was but for `solution`, which is now
/// the current solution, with its score.
pub open spec fn starts_from<SolutionType, ScoreType, CalculatorType>(
    start: SolverScope<SolutionType, ScoreType, CalculatorType>,
    tracker: SolutionTracker<SolutionType, ScoreType, CalculatorType>,
    random_seed: u64,
    solution: SolutionType,
    score: ScoreType,
) -> bool where
    ScoreType: ScoreTrait + Copy,
    SolutionType: Solution<ScoreType> + Clone,
    CalculatorType: ScoreCalculator<SolutionType, ScoreType>,
 {
    &&& start.thread_rng == seeded(random_seed)
    &&& start.solution_tracker.same_calculator(&tracker)
    &&& start.solution_tracker.current() == solution
    &&& start.solution_tracker.current_score() == Some(score)
    &&& start.solution_tracker.best() == tracker.best()
    &&& start.solution_tracker.best_score() == tracker.best_score()
}

impl<SolutionType, ScoreType, CalculatorType, TerminationType> Solver<
    SolutionType,
    ScoreType,
    CalculatorType,
    TerminationType,
> where
    ScoreType: ScoreTrait + Copy,
    SolutionType: Solution<ScoreType> + Clone,
    CalculatorType: ScoreCalculator<SolutionType, ScoreType>,
    TerminationType: SolverTerminationCondition<SolutionType, ScoreType, CalculatorType>,
 {
    pub fn new(
        phases: Vec<Box<dyn Phase<SolutionType, ScoreType, CalculatorType>>>,
        termination: TerminationType,
        solver_listeners: Vec<
            Box<dyn SolverEventListener<SolutionType, ScoreType, CalculatorType>>,
        >,
        solution_tracker: SolutionTracker<SolutionType, ScoreType, CalculatorType>,
        random_seed: u64,
    ) -> (solver: Self)
        ensures
            solver.phase_list == phases,
            solver.termination == termination,
            solver.solver_listeners == solver_listeners,
            solver.solver_scope.solution_tracker == solution_tracker,
            solver.solver_scope.thread_rng == seeded(random_seed),
            solver.random_seed == random_seed,
    {
        Solver {
            phase_list: phases,
            termination,
            solver_listeners,
            solver_scope: SolverScope::new(random_seed, solution_tracker),
            random_seed,
        }
    }

    /// The tracker of the solve. After `solve` it holds the best solution
    /// found.
    pub fn score_director(&self) -> (tracker: &SolutionTracker<
        SolutionType,
        ScoreType,
        CalculatorType,
    >)
        ensures
            *tracker == self.solver_scope.solution_tracker,
    {
        &self.solver_scope.solution_tracker
    }

    /// Tells every listener, in the order of their registration, that the
    /// solve starts. Returns how many of them failed; a failure stops
    /// nothing.
    pub fn fire_solver_begin(&mut self) -> (failures: usize)
        ensures
            *final(self) == *old(self),
            failures <= old(self).solver_listeners@.len(),
            exists|heard: Seq<bool>|
                {
                    &&& #[trigger] solve_was_heard(
                        old(self).solver_listeners@,
                        old(self).solver_scope,
                        true,
                        heard,
                    )
                    &&& failures == failures_among(heard)
                },
    {
        let mut failures: usize = 0;
        let mut listener_id: usize = 0;
        let ghost mut heard: Seq<bool> = Seq::empty();
        while listener_id < self.solver_listeners.len()
            invariant
                *self == *old(self),
                failures <= listener_id <= self.solver_listeners@.len(),
                heard.len() == listener_id,
                failures == failures_among(heard),
                forall|i: int|
                    #![trigger self.solver_listeners@[i]]
                    0 <= i < listener_id ==> self.solver_listeners@[i].may_hear_solving_started(
                        self.solver_scope,
                        heard[i],
                    ),
            decreases self.solver_listeners@.len() - listener_id,
        {
            let answer = self.solver_listeners[listener_id].solving_started(&mut self.solver_scope);
            proof {
                lemma_failures_among_push(heard, answer.is_ok());
                heard = heard.push(answer.is_ok());
            }
            match answer {
                Ok(_) => {},
                Err(_) => {
                    failures = failures + 1;
                },
            }
            listener_id = listener_id + 1;
        }
        proof {
            assert(solve_was_heard(
                old(self).solver_listeners@,
                old(self).solver_scope,
                true,
                heard,
            ));
        }
        failures
    }

    /// Tells every listener, in the order of their registration, that the
    /// solve has ended. Returns how many of them failed.
    pub fn fire_solver_end(&mut self) -> (failures: usize)
        ensures
            *final(self) == *old(self),
            failures <= old(self).solver_listeners@.len(),
            exists|heard: Seq<bool>|
                {
                    &&& #[trigger] solve_was_heard(
                        old(self).solver_listeners@,
                        old(self).solver_scope,
                        false,
                        heard,
                    )
                    &&& failures == failures_among(heard)
                },
    {
        let mut failures: usize = 0;
        let mut listener_id: usize = 0;
        let ghost mut heard: Seq<bool> = Seq::empty();
        while listener_id < self.solver_listeners.len()
            invariant
                *self == *old(self),
                failures <= listener_id <= self.solver_listeners@.len(),
                heard.len() == listener_id,
                failures == failures_among(heard),
                forall|i: int|
                    #![trigger self.solver_listeners@[i]]
                    0 <= i < listener_id ==> self.solver_listeners@[i].may_hear_solving_ended(
                        self.solver_scope,
                        heard[i],
                    ),
            decreases self.solver_listeners@.len() - listener_id,
        {
            let answer = self.solver_listeners[listener_id].solving_ended(&mut self.solver_scope);
            proof {
                lemma_failures_among_push(heard, answer.is_ok());
                heard = heard.push(answer.is_ok());
            }
            match answer {
                Ok(_) => {},
                Err(_) => {
                    failures = failures + 1;
                },
            }
            listener_id = listener_id + 1;
        }
        proof {
            assert(solve_was_heard(
                old(self).solver_listeners@,
                old(self).solver_scope,
                false,
                heard,
            ));
        }
        failures
    }
}

impl<SolutionType, ScoreType, CalculatorType, TerminationType> Solver<
    SolutionType,
    ScoreType,
    CalculatorType,
    TerminationType,
> where
    ScoreType: ScoreTrait + Copy,
    SolutionType: Solution<ScoreType> + Clone,
    CalculatorType: ScoreCalculator<SolutionType, ScoreType>,
    TerminationType: SolverTerminationCondition<SolutionType, ScoreType, CalculatorType>,
 {
    /// Solves, starting from `solution`.
    ///
    /// The solve takes `solution` as the current solution and a generator
    /// fresh from the seed, tells the listeners that it starts, and runs
    /// the phases in their order, each on the scope that the one before it
    /// left. Before each phase it asks the termination condition, and
    /// stops where that says so. It tells the listeners that it has ended
    /// and leaves the tracker holding the best solution found.
    ///
    /// A failure of the score calculator ends the solve and is returned:
    /// on `solution` itself before anything has changed, in a phase with
    /// the scope as that phase left it.
    pub fn solve(&mut self, solution: SolutionType) -> (outcome: Result<(), MalformedSolution>)
        requires
            old(self).solver_scope.solution_tracker.well_formed(),
        ensures
            final(self).phase_list == old(self).phase_list,
            final(self).termination == old(self).termination,
            final(self).solver_listeners == old(self).solver_listeners,
            final(self).random_seed == old(self).random_seed,
            final(self).solver_scope.solution_tracker.well_formed(),
            final(self).solver_scope.solution_tracker.same_calculator(
                &old(self).solver_scope.solution_tracker,
            ),
            not_worse(
                final(self).solver_scope.solution_tracker.best_score(),
                old(self).solver_scope.solution_tracker.best_score(),
            ),
            match old(self).solver_scope.solution_tracker.score_of(solution) {
                Ok(score) => exists|trace: Seq<SolverScope<SolutionType, ScoreType, CalculatorType>>|
                    {
                        &&& #[trigger] run_trace(
                            old(self).phase_list@,
                            old(self).termination,
                            trace,
                            outcome.is_ok(),
                        )
                        &&& starts_from(
                            trace[0],
                            old(self).solver_scope.solution_tracker,
                            old(self).random_seed,
                            solution,
                            score,
                        )
                        &&& trace.last() == final(self).solver_scope
                    },
                Err(error) => outcome == Err::<(), MalformedSolution>(error) && final(self).solver_scope == old(self).solver_scope,
            },
    {
        match self.solver_scope.solution_tracker.set_current_solution(solution, None) {
            Ok(_) => {},
            Err(error) => {
                return Err(error);
            },
        }
        self.solver_scope.thread_rng = seeded_generator(self.random_seed);
        self.fire_solver_begin();
        let ghost start = self.solver_scope;
        let ghost phases = self.phase_list@;
        let ghost mut trace = seq![start];
        let mut outcome: Result<(), MalformedSolution> = Ok(());
        let mut stopped = false;
        let mut at: usize = 0;
        while at < self.phase_list.len() && !stopped
            invariant
                self.phase_list == old(self).phase_list,
                self.termination == old(self).termination,
                phases == self.phase_list@,
                at >= 1 ==> self.termination.may_say(false),
                stopped && outcome.is_ok() ==> self.termination.may_say(true),
                self.solver_listeners == old(self).solver_listeners,
                self.random_seed == old(self).random_seed,
                self.solver_scope.solution_tracker.well_formed(),
                self.solver_scope.solution_tracker.same_calculator(
                    &old(self).solver_scope.solution_tracker,
                ),
                not_worse(
                    self.solver_scope.solution_tracker.best_score(),
                    old(self).solver_scope.solution_tracker.best_score(),
                ),
                at <= self.phase_list@.len(),
                trace.len() == at + 1,
                trace[0] == start,
                trace.last() == self.solver_scope,
                outcome.is_err() ==> stopped && at >= 1,
                forall|i: int|
                    #![trigger phases[i]]
                    0 <= i < at ==> phases[i].may_leave(
                        trace[i],
                        trace[i + 1],
                        i < at - 1 || outcome.is_ok(),
                    ),
            decreases self.phase_list@.len() - at, if stopped { 0int } else { 1int },
        {
            if self.termination.should_terminate() {
                stopped = true;
            } else {
                let ghost before = self.solver_scope;
                let ghost earlier = trace;
                outcome = self.phase_list[at].do_phase(&mut self.solver_scope);
                proof {
                    lemma_not_worse_is_transitive(
                        self.solver_scope.solution_tracker.best_score(),
                        before.solution_tracker.best_score(),
                        old(self).solver_scope.solution_tracker.best_score(),
                    );
                    trace = trace.push(self.solver_scope);
                    assert forall|i: int|
                        #![trigger phases[i]]
                        0 <= i < at + 1 implies phases[i].may_leave(
                        trace[i],
                        trace[i + 1],
                        i < at || outcome.is_ok(),
                    ) by {
                        if i < at {
                            assert(trace[i] == earlier[i]);
                            assert(trace[i + 1] == earlier[i + 1]);
                        } else {
                            assert(trace[i] == before);
                            assert(trace[i + 1] == self.solver_scope);

                        }
                    }
                }
                at = at + 1;
                if outcome.is_err() {
                    stopped = true;
                }
            }
        }
        self.fire_solver_end();
        proof {
            assert(run_trace(old(self).phase_list@, old(self).termination, trace, outcome.is_ok()));
        }
        outcome
    }
}

impl<'a, 'b, 'c, SolutionType, ScoreType, CalculatorType> MoveScope<
    'a,
    'b,
    'c,
    SolutionType,
    ScoreType,
    CalculatorType,
> where
    ScoreType: ScoreTrait + Copy,
    SolutionType: Solution<ScoreType> + Clone,
    CalculatorType: ScoreCalculator<SolutionType, ScoreType>,
 {
    /// The random generator of the solve.
    pub fn random_generator(&mut self) -> (generator: &mut ChaCha8Rng)
        ensures
            *generator == old(self).step_scope.phase_scope.solver_scope.thread_rng,
            final(self).step_scope.phase_scope.solver_scope.thread_rng == *final(generator),
            final(self).step_scope.phase_scope.solver_scope.solution_tracker == old(self).step_scope.phase_scope.solver_scope.solution_tracker,
            *final(final(self).step_scope) == *final(old(self).step_scope),
            *final(final(self).step_scope.phase_scope) == *final(old(self).step_scope.phase_scope),
            *final(final(self).step_scope.phase_scope.solver_scope) == *final(old(self).step_scope.phase_scope.solver_scope),
    {
        &mut self.step_scope.phase_scope.solver_scope.thread_rng
    }

    /// The solution tracker of the solve.
    pub fn solution_tracker(&mut self) -> (tracker: &mut SolutionTracker<
        SolutionType,
        ScoreType,
        CalculatorType,
    >)
        ensures
            *tracker == old(self).step_scope.phase_scope.solver_scope.solution_tracker,
            final(self).step_scope.phase_scope.solver_scope.solution_tracker == *final(tracker),
            final(self).step_scope.phase_scope.solver_scope.thread_rng == old(self).step_scope.phase_scope.solver_scope.thread_rng,
            *final(final(self).step_scope) == *final(old(self).step_scope),
            *final(final(self).step_scope.phase_scope) == *final(old(self).step_scope.phase_scope),
            *final(final(self).step_scope.phase_scope.solver_scope) == *final(old(self).step_scope.phase_scope.solver_scope),
    {
        &mut self.step_scope.phase_scope.solver_scope.solution_tracker
    }
}

impl<SolutionType, MoveType, ScoreType, CalculatorType> PhaseConfig<
    SolutionType,
    MoveType,
    ScoreType,
    CalculatorType,
> where
    SolutionType: Solution<ScoreType> + Clone,
    MoveType: ExecutableMove<SolutionType, ScoreType>,
    ScoreType: ScoreTrait,
    CalculatorType: ScoreCalculator<SolutionType, ScoreType>,
 {
    /// Tells every listener of the phase, in the order of their
    /// registration, that the phase starts. Returns how many of them
    /// failed; a failure stops nothing.
    pub fn fire_phase_started(
        &self,
        phase_scope: &mut PhaseScope<'_, SolutionType, ScoreType, CalculatorType>,
    ) -> (failures: usize)
        ensures
            *final(phase_scope).solver_scope == *old(phase_scope).solver_scope,
            *final(final(phase_scope).solver_scope) == *final(old(phase_scope).solver_scope),
            failures <= self.phase_listeners@.len(),
            exists|heard: Seq<bool>|
                {
                    &&& #[trigger] phase_was_heard(
                        self.phase_listeners@,
                        *old(phase_scope).solver_scope,
                        true,
                        heard,
                    )
                    &&& failures == failures_among(heard)
                },
    {
        let mut failures: usize = 0;
        let mut listener_id: usize = 0;
        let ghost mut heard: Seq<bool> = Seq::empty();
        while listener_id < self.phase_listeners.len()
            invariant
                *phase_scope.solver_scope == *old(phase_scope).solver_scope,
                *final(phase_scope.solver_scope) == *final(old(phase_scope).solver_scope),
                failures <= listener_id <= self.phase_listeners@.len(),
                heard.len() == listener_id,
                failures == failures_among(heard),
                forall|i: int|
                    #![trigger self.phase_listeners@[i]]
                    0 <= i < listener_id ==> self.phase_listeners@[i].may_hear_phase_started(
                        *old(phase_scope).solver_scope,
                        heard[i],
                    ),
            decreases self.phase_listeners@.len() - listener_id,
        {
            let answer = self.phase_listeners[listener_id].phase_started(phase_scope);
            proof {
                lemma_failures_among_push(heard, answer.is_ok());
                heard = heard.push(answer.is_ok());
            }
            match answer {
                Ok(_) => {},
                Err(_) => {
                    failures = failures + 1;
                },
            }
            listener_id = listener_id + 1;
        }
        proof {
            assert(phase_was_heard(
                self.phase_listeners@,
                *old(phase_scope).solver_scope,
                true,
                heard,
            ));
        }
        failures
    }

    /// Tells every listener of the phase, in the order of their
    /// registration, that the phase has ended. Returns how many of them
    /// failed.
    pub fn fire_phase_ended(
        &self,
        phase_scope: &mut PhaseScope<'_, SolutionType, ScoreType, CalculatorType>,
    ) -> (failures: usize)
        ensures
            *final(phase_scope).solver_scope == *old(phase_scope).solver_scope,
            *final(final(phase_scope).solver_scope) == *final(old(phase_scope).solver_scope),
            failures <= self.phase_listeners@.len(),
            exists|heard: Seq<bool>|
                {
                    &&& #[trigger] phase_was_heard(
                        self.phase_listeners@,
                        *old(phase_scope).solver_scope,
                        false,
                        heard,
                    )
                    &&& failures == failures_among(heard)
                },
    {
        let mut failures: usize = 0;
        let mut listener_id: usize = 0;
        let ghost mut heard: Seq<bool> = Seq::empty();
        while listener_id < self.phase_listeners.len()
            invariant
                *phase_scope.solver_scope == *old(phase_scope).solver_scope,
                *final(phase_scope.solver_scope) == *final(old(phase_scope).solver_scope),
                failures <= listener_id <= self.phase_listeners@.len(),
                heard.len() == listener_id,
                failures == failures_among(heard),
                forall|i: int|
                    #![trigger self.phase_listeners@[i]]
                    0 <= i < listener_id ==> self.phase_listeners@[i].may_hear_phase_ended(
                        *old(phase_scope).solver_scope,
                        heard[i],
                    ),
            decreases self.phase_listeners@.len() - listener_id,
        {
            let answer = self.phase_listeners[listener_id].phase_ended(phase_scope);
            proof {
                lemma_failures_among_push(heard, answer.is_ok());
                heard = heard.push(answer.is_ok());
            }
            match answer {
                Ok(_) => {},
                Err(_) => {
                    failures = failures + 1;
                },
            }
            listener_id = listener_id + 1;
        }
        proof {
            assert(phase_was_heard(
                self.phase_listeners@,
                *old(phase_scope).solver_scope,
                false,
                heard,
            ));
        }
        failures
    }
}

} // verus!
