use rand_chacha::rand_core::{RngCore, SeedableRng};
use rand_chacha::ChaCha8Rng;
use rust_constraint_solver::score::{MalformedSolution, ScoreCalculator, ScoreTrait};
use rust_constraint_solver::score_impl::hard_soft_int_score::HardSoftIntScore;
use rust_constraint_solver::solver::{
    EventListener, ExecutableMove, ListenerFailure, MoveScope, MoveSelector, Phase, PhaseConfig,
    PhaseEventListener, PhaseScope, PhaseTerminationCondition, Selector, Solution,
    SolutionTracker, Solver, SolverEventListener, SolverScope, SolverTerminationCondition,
    StepScope, TerminationCondition,
};
use std::cell::{Cell, RefCell};
use std::rc::Rc;
use uuid::Uuid;

#[derive(Clone, Debug, PartialEq)]
struct KnapsackItem {
    weight: u32,
    worth: u32,
    in_knapsack: bool,
}

#[derive(Clone, Debug, PartialEq)]
struct KnapSackSolution {
    uuid: Uuid,
    max_weight: u32,
    items: Vec<KnapsackItem>,
}

impl Solution<HardSoftIntScore> for KnapSackSolution {
    fn identity(&self) -> u128 {
        self.uuid.as_u128()
    }

    fn get_solution_uuid(&self) -> Uuid {
        self.uuid
    }
}

#[derive(Clone, Debug, PartialEq)]
struct RandomFlipKnapsackMove {
    index: u32,
}

impl ExecutableMove<KnapSackSolution, HardSoftIntScore> for RandomFlipKnapsackMove {
    fn doable(&self, solution: KnapSackSolution) -> bool {
        self.is_doable(&solution)
    }

    fn applied(&self, solution: KnapSackSolution) -> KnapSackSolution {
        let mut after = solution;
        self.do_move_unchecked(&mut after);
        after
    }

    fn do_move_unchecked(&self, solution: &mut KnapSackSolution) -> RandomFlipKnapsackMove {
        let item: &mut KnapsackItem = solution.items.get_mut(self.index as usize).unwrap();
        if item.in_knapsack {
            item.in_knapsack = false;
        } else {
            item.in_knapsack = true;
        }
        self.get_undo_move(solution)
    }

    fn get_undo_move(&self, _solution: &KnapSackSolution) -> RandomFlipKnapsackMove {
        RandomFlipKnapsackMove { index: self.index }
    }

    fn is_doable(&self, solution: &KnapSackSolution) -> bool {
        solution.items.get(self.index as usize).is_some()
    }
}

/// Hard: the weight over the limit, below zero. Soft: the worth packed.
/// A knapsack without items is malformed.
struct KnapsackScoreCalculator {
    calls: Rc<Cell<u32>>,
}

impl KnapsackScoreCalculator {
    fn new() -> KnapsackScoreCalculator {
        KnapsackScoreCalculator { calls: Rc::new(Cell::new(0)) }
    }
}

impl ScoreCalculator<KnapSackSolution, HardSoftIntScore> for KnapsackScoreCalculator {
    fn score_of(&self, _solution: KnapSackSolution) -> Result<HardSoftIntScore, MalformedSolution> {
        unreachable!()
    }

    fn calculate_score(&self, solution: &KnapSackSolution) -> Result<HardSoftIntScore, MalformedSolution> {
        self.calls.set(self.calls.get() + 1);
        if solution.items.is_empty() {
            return Err(MalformedSolution);
        }
        let mut weight: i64 = 0;
        let mut worth: i64 = 0;
        for item in &solution.items {
            if item.in_knapsack {
                weight += i64::from(item.weight);
                worth += i64::from(item.worth);
            }
        }
        let over = (weight - i64::from(solution.max_weight)).max(0);
        Ok(HardSoftIntScore::new(-(over as i32), worth as i32))
    }
}

type Tracker = SolutionTracker<KnapSackSolution, HardSoftIntScore, KnapsackScoreCalculator>;
type Scope = SolverScope<KnapSackSolution, HardSoftIntScore, KnapsackScoreCalculator>;
type KnapsackSolver = Solver<KnapSackSolution, HardSoftIntScore, KnapsackScoreCalculator, NeverTerminate>;
type KnapsackPhaseConfig =
    PhaseConfig<KnapSackSolution, RandomFlipKnapsackMove, HardSoftIntScore, KnapsackScoreCalculator>;

/// Yields moves whose indices come from the generator of the scope.
struct KnapsackMoveSelector {
    item_count: u32,
}

impl MoveSelector<KnapSackSolution, RandomFlipKnapsackMove, HardSoftIntScore, KnapsackScoreCalculator>
    for KnapsackMoveSelector
{
}

impl Selector<KnapSackSolution, RandomFlipKnapsackMove, HardSoftIntScore, KnapsackScoreCalculator>
    for KnapsackMoveSelector
{
    fn selection(
        &self,
        _max_amount: u32,
        _solution: KnapSackSolution,
        _scope: Scope,
    ) -> (Vec<Box<RandomFlipKnapsackMove>>, ChaCha8Rng) {
        unreachable!()
    }

    fn get_vec(
        &self,
        max_amount: u32,
        _solution: &KnapSackSolution,
        step_scope: &mut StepScope<'_, '_, KnapSackSolution, HardSoftIntScore, KnapsackScoreCalculator>,
    ) -> Vec<Box<RandomFlipKnapsackMove>> {
        let mut vector: Vec<Box<RandomFlipKnapsackMove>> = Vec::new();
        for _ in 0..max_amount {
            let drawn = step_scope.random_generator().next_u32();
            let index = if self.item_count == 0 { drawn } else { drawn % self.item_count };
            vector.push(Box::new(RandomFlipKnapsackMove { index }));
        }
        vector
    }
}

struct NeverTerminate;

impl TerminationCondition for NeverTerminate {
    fn may_say(&self, terminate: bool) -> bool {
        !terminate
    }

    fn should_terminate(&self) -> bool {
        false
    }
}

impl EventListener for NeverTerminate {}

impl SolverEventListener<KnapSackSolution, HardSoftIntScore, KnapsackScoreCalculator> for NeverTerminate {
    fn may_hear_solving_started(&self, _solver_scope: Scope, heard: bool) -> bool {
        heard
    }

    fn may_hear_solving_ended(&self, _solver_scope: Scope, heard: bool) -> bool {
        heard
    }

    fn solving_started(&self, _solver_scope: &mut Scope) -> Result<(), ListenerFailure> {
        Ok(())
    }

    fn solving_ended(&self, _solver_scope: &mut Scope) -> Result<(), ListenerFailure> {
        Ok(())
    }
}

impl SolverTerminationCondition<KnapSackSolution, HardSoftIntScore, KnapsackScoreCalculator> for NeverTerminate {}

impl PhaseEventListener<KnapSackSolution, HardSoftIntScore, KnapsackScoreCalculator> for NeverTerminate {
    fn may_hear_phase_started(&self, _solver_scope: Scope, heard: bool) -> bool {
        heard
    }

    fn may_hear_phase_ended(&self, _solver_scope: Scope, heard: bool) -> bool {
        heard
    }

    fn phase_started(
        &self,
        _phase_scope: &mut PhaseScope<'_, KnapSackSolution, HardSoftIntScore, KnapsackScoreCalculator>,
    ) -> Result<(), ListenerFailure> {
        Ok(())
    }

    fn phase_ended(
        &self,
        _phase_scope: &mut PhaseScope<'_, KnapSackSolution, HardSoftIntScore, KnapsackScoreCalculator>,
    ) -> Result<(), ListenerFailure> {
        Ok(())
    }
}

impl PhaseTerminationCondition<KnapSackSolution, HardSoftIntScore, KnapsackScoreCalculator> for NeverTerminate {}

/// Says "terminate" from the given check on.
struct TerminateAtCheck {
    checks: Cell<u32>,
    at: u32,
}

impl TerminationCondition for TerminateAtCheck {
    fn may_say(&self, _terminate: bool) -> bool {
        true
    }

    fn should_terminate(&self) -> bool {
        let check = self.checks.get();
        self.checks.set(check + 1);
        check >= self.at
    }
}

impl EventListener for TerminateAtCheck {}

impl SolverEventListener<KnapSackSolution, HardSoftIntScore, KnapsackScoreCalculator> for TerminateAtCheck {
    fn may_hear_solving_started(&self, _solver_scope: Scope, heard: bool) -> bool {
        heard
    }

    fn may_hear_solving_ended(&self, _solver_scope: Scope, heard: bool) -> bool {
        heard
    }

    fn solving_started(&self, _solver_scope: &mut Scope) -> Result<(), ListenerFailure> {
        Ok(())
    }

    fn solving_ended(&self, _solver_scope: &mut Scope) -> Result<(), ListenerFailure> {
        Ok(())
    }
}

impl SolverTerminationCondition<KnapSackSolution, HardSoftIntScore, KnapsackScoreCalculator> for TerminateAtCheck {}

/// Writes what it hears into a log, and fails if it was made to.
struct LoggingListener {
    name: &'static str,
    log: Rc<RefCell<Vec<String>>>,
    fails: bool,
}

impl LoggingListener {
    fn hear(&self, event: &str) -> Result<(), ListenerFailure> {
        self.log.borrow_mut().push(format!("{} {}", self.name, event));
        if self.fails {
            Err(ListenerFailure)
        } else {
            Ok(())
        }
    }
}

impl EventListener for LoggingListener {}

impl SolverEventListener<KnapSackSolution, HardSoftIntScore, KnapsackScoreCalculator> for LoggingListener {
    fn may_hear_solving_started(&self, _solver_scope: Scope, heard: bool) -> bool {
        heard != self.fails
    }

    fn may_hear_solving_ended(&self, _solver_scope: Scope, heard: bool) -> bool {
        heard != self.fails
    }

    fn solving_started(&self, _solver_scope: &mut Scope) -> Result<(), ListenerFailure> {
        self.hear("solving started")
    }

    fn solving_ended(&self, _solver_scope: &mut Scope) -> Result<(), ListenerFailure> {
        self.hear("solving ended")
    }
}

impl PhaseEventListener<KnapSackSolution, HardSoftIntScore, KnapsackScoreCalculator> for LoggingListener {
    fn may_hear_phase_started(&self, _solver_scope: Scope, heard: bool) -> bool {
        heard != self.fails
    }

    fn may_hear_phase_ended(&self, _solver_scope: Scope, heard: bool) -> bool {
        heard != self.fails
    }

    fn phase_started(
        &self,
        _phase_scope: &mut PhaseScope<'_, KnapSackSolution, HardSoftIntScore, KnapsackScoreCalculator>,
    ) -> Result<(), ListenerFailure> {
        self.hear("phase started")
    }

    fn phase_ended(
        &self,
        _phase_scope: &mut PhaseScope<'_, KnapSackSolution, HardSoftIntScore, KnapsackScoreCalculator>,
    ) -> Result<(), ListenerFailure> {
        self.hear("phase ended")
    }
}

/// In each of its steps, asks the selector for candidates and takes the
/// first that improves on the current solution.
struct HillClimbingPhase {
    phase_config: KnapsackPhaseConfig,
    steps: u32,
    drawn: Rc<RefCell<Vec<u32>>>,
}

impl Phase<KnapSackSolution, HardSoftIntScore, KnapsackScoreCalculator> for HillClimbingPhase {
    fn may_leave(&self, _before: Scope, _after: Scope, _succeeded: bool) -> bool {
        unreachable!()
    }

    fn do_phase(&self, solver_scope: &mut Scope) -> Result<(), MalformedSolution> {
        let mut phase_scope = PhaseScope { solver_scope };
        self.phase_config.fire_phase_started(&mut phase_scope);
        let mut outcome = Ok(());
        for _ in 0..self.steps {
            if self.phase_config.termination.should_terminate() {
                break;
            }
            let solution = phase_scope.solution_tracker().borrow_current_solution().clone();
            let moves = {
                let mut step_scope = StepScope { phase_scope: &mut phase_scope };
                self.phase_config.move_selector.get_vec(10, &solution, &mut step_scope)
            };
            outcome = self.climb(&mut phase_scope, solution, moves);
            if outcome.is_err() {
                break;
            }
        }
        self.phase_config.fire_phase_ended(&mut phase_scope);
        outcome
    }
}

impl HillClimbingPhase {
    fn climb(
        &self,
        phase_scope: &mut PhaseScope<'_, KnapSackSolution, HardSoftIntScore, KnapsackScoreCalculator>,
        solution: KnapSackSolution,
        moves: Vec<Box<RandomFlipKnapsackMove>>,
    ) -> Result<(), MalformedSolution> {
        let tracker = phase_scope.solution_tracker();
        let current_score = tracker.get_current_solution_score()?;
        let mut candidate = solution;
        for candidate_move in moves {
            self.drawn.borrow_mut().push(candidate_move.index);
            if let Some(undo) = candidate_move.do_move(&mut candidate) {
                let score = tracker.calculate_score(&candidate)?;
                if score.better_than(&current_score) {
                    tracker.set_current_and_best(candidate)?;
                    return Ok(());
                }
                undo.do_move(&mut candidate);
            }
        }
        Ok(())
    }
}

/// Notes that it ran, and reports the solution it was made with.
struct ReportingPhase {
    name: &'static str,
    log: Rc<RefCell<Vec<String>>>,
    report: Option<KnapSackSolution>,
}

impl Phase<KnapSackSolution, HardSoftIntScore, KnapsackScoreCalculator> for ReportingPhase {
    fn may_leave(&self, _before: Scope, _after: Scope, _succeeded: bool) -> bool {
        unreachable!()
    }

    fn do_phase(&self, solver_scope: &mut Scope) -> Result<(), MalformedSolution> {
        self.log.borrow_mut().push(format!("{} ran", self.name));
        match &self.report {
            Some(solution) => {
                solver_scope.solution_tracker.set_current_and_best(solution.clone())?;
                Ok(())
            }
            None => Ok(()),
        }
    }
}

fn knapsack(in_knapsack: [bool; 4]) -> KnapSackSolution {
    let weights = [1, 5, 1, 1];
    let worths = [5, 10, 5, 5];
    let mut items = Vec::new();
    for i in 0..4 {
        items.push(KnapsackItem { weight: weights[i], worth: worths[i], in_knapsack: in_knapsack[i] });
    }
    KnapSackSolution { uuid: Uuid::from_u128(1), max_weight: 3, items }
}

fn empty_knapsack() -> KnapSackSolution {
    KnapSackSolution { uuid: Uuid::from_u128(2), max_weight: 3, items: Vec::new() }
}

fn packed(solution: &KnapSackSolution) -> Vec<bool> {
    solution.items.iter().map(|item| item.in_knapsack).collect()
}

fn tracker(solution: KnapSackSolution) -> Tracker {
    SolutionTracker::new(KnapsackScoreCalculator::new(), solution)
}

fn hill_climbing(steps: u32, drawn: Rc<RefCell<Vec<u32>>>) -> HillClimbingPhase {
    HillClimbingPhase {
        phase_config: PhaseConfig {
            move_selector: Box::new(KnapsackMoveSelector { item_count: 4 }),
            termination: Box::new(NeverTerminate),
            phase_listeners: Vec::new(),
        },
        steps,
        drawn,
    }
}

fn reporting(name: &'static str, log: &Rc<RefCell<Vec<String>>>, report: Option<KnapSackSolution>) -> Box<ReportingPhase> {
    Box::new(ReportingPhase { name, log: log.clone(), report })
}

fn solver_of(
    phases: Vec<Box<dyn Phase<KnapSackSolution, HardSoftIntScore, KnapsackScoreCalculator>>>,
    seed: u64,
) -> KnapsackSolver {
    Solver::new(phases, NeverTerminate, Vec::new(), tracker(knapsack([false; 4])), seed)
}

#[test]
fn knapsack_test() {
    let item1 = KnapsackItem { weight: 1, worth: 5, in_knapsack: false };
    let item2 = KnapsackItem { weight: 5, worth: 10, in_knapsack: false };
    let item3 = KnapsackItem { weight: 1, worth: 5, in_knapsack: false };
    let item4 = KnapsackItem { weight: 1, worth: 5, in_knapsack: false };
    let solution = KnapSackSolution {
        uuid: Uuid::from_u128(1),
        max_weight: 3,
        items: vec![item1, item2, item3, item4],
    };
    assert_eq!(solution, knapsack([false; 4]));

    let phase = HillClimbingPhase {
        phase_config: PhaseConfig {
            move_selector: Box::new(KnapsackMoveSelector { item_count: 0 }),
            termination: Box::new(NeverTerminate),
            phase_listeners: Vec::new(),
        },
        steps: 1,
        drawn: Rc::new(RefCell::new(Vec::new())),
    };
    let mut solver_scope = SolverScope::new(0, tracker(solution.clone()));
    let moves = {
        let mut phase_scope = PhaseScope { solver_scope: &mut solver_scope };
        let mut step_scope = StepScope { phase_scope: &mut phase_scope };
        phase.phase_config.move_selector.get_vec(10, &solution, &mut step_scope)
    };
    assert_eq!(moves.len(), 10);
    let mut expected = ChaCha8Rng::seed_from_u64(0);
    for candidate in &moves {
        assert_eq!(candidate.index, expected.next_u32());
    }
    assert_eq!(phase.do_phase(&mut solver_scope), Ok(()));
}

#[test]
fn flipping_two_items_and_undoing_restores_the_knapsack() {
    let calculator = KnapsackScoreCalculator::new();
    let mut solution = knapsack([false; 4]);
    let before = calculator.calculate_score(&solution).unwrap();
    assert_eq!(before, HardSoftIntScore::new(0, 0));

    let undo_first = RandomFlipKnapsackMove { index: 0 }.do_move(&mut solution).unwrap();
    let undo_second = RandomFlipKnapsackMove { index: 2 }.do_move(&mut solution).unwrap();
    assert_eq!(packed(&solution), vec![true, false, true, false]);
    let weight: u32 = solution.items.iter().filter(|item| item.in_knapsack).map(|item| item.weight).sum();
    assert_eq!(weight, 2);
    assert!(weight <= solution.max_weight);
    let packed_score = calculator.calculate_score(&solution).unwrap();
    assert_eq!(packed_score, HardSoftIntScore::new(0, 10));
    assert!(packed_score.feasible());

    assert!(undo_second.do_move(&mut solution).is_some());
    assert!(undo_first.do_move(&mut solution).is_some());
    assert_eq!(packed(&solution), vec![false, false, false, false]);
    assert_eq!(solution, knapsack([false; 4]));
    assert_eq!(calculator.calculate_score(&solution).unwrap(), before);
}

#[test]
fn an_undo_move_restores_every_item_and_the_score() {
    let calculator = KnapsackScoreCalculator::new();
    for start in [[false; 4], [true, false, true, false], [true; 4]] {
        for index in 0..4 {
            let mut solution = knapsack(start);
            let flip = RandomFlipKnapsackMove { index };
            assert!(flip.is_doable(&solution));
            let previewed = flip.get_undo_move(&solution);
            let undo = flip.do_move_unchecked(&mut solution);
            assert_eq!(undo, previewed);
            assert_ne!(solution, knapsack(start));
            assert!(undo.is_doable(&solution));
            undo.do_move_unchecked(&mut solution);
            assert_eq!(solution, knapsack(start));
            assert_eq!(
                calculator.calculate_score(&solution),
                calculator.calculate_score(&knapsack(start))
            );
        }
    }
}

#[test]
fn a_move_that_is_not_doable_is_not_done() {
    let mut solution = knapsack([true, false, false, true]);
    let flip = RandomFlipKnapsackMove { index: 4 };
    assert!(!flip.is_doable(&solution));
    assert!(flip.do_move(&mut solution).is_none());
    assert_eq!(solution, knapsack([true, false, false, true]));
    assert!(RandomFlipKnapsackMove { index: u32::MAX }.do_move(&mut solution).is_none());
    assert_eq!(solution, knapsack([true, false, false, true]));
}

#[test]
fn a_knapsack_over_its_limit_is_not_feasible() {
    let calculator = KnapsackScoreCalculator::new();
    let score = calculator.calculate_score(&knapsack([true, true, false, false])).unwrap();
    assert_eq!(score, HardSoftIntScore::new(-3, 15));
    assert!(!score.feasible());
}

#[test]
fn a_new_tracker_holds_the_current_solution_and_no_best() {
    let tracker = tracker(knapsack([true, false, false, false]));
    assert_eq!(tracker.borrow_current_solution(), &knapsack([true, false, false, false]));
    assert_eq!(tracker.borrow_best_solution(), None);
    assert_eq!(tracker.get_best_solution_score(), None);
}

#[test]
fn the_current_score_is_computed_once_and_then_held() {
    let calculator = KnapsackScoreCalculator::new();
    let calls = calculator.calls.clone();
    let mut tracker = SolutionTracker::new(calculator, knapsack([true, false, true, false]));
    assert_eq!(calls.get(), 0);
    assert_eq!(tracker.get_current_solution_score(), Ok(HardSoftIntScore::new(0, 10)));
    assert_eq!(calls.get(), 1);
    assert_eq!(tracker.get_current_solution_score(), Ok(HardSoftIntScore::new(0, 10)));
    assert_eq!(calls.get(), 1);
}

#[test]
fn the_current_score_of_a_malformed_solution_is_a_failure() {
    let mut tracker = tracker(empty_knapsack());
    assert_eq!(tracker.get_current_solution_score(), Err(MalformedSolution));
    assert_eq!(tracker.get_current_solution_score(), Err(MalformedSolution));
    assert_eq!(tracker.borrow_current_solution(), &empty_knapsack());
}

#[test]
fn a_score_that_comes_with_a_solution_is_trusted() {
    let calculator = KnapsackScoreCalculator::new();
    let calls = calculator.calls.clone();
    let mut tracker = SolutionTracker::new(calculator, knapsack([false; 4]));
    let given = HardSoftIntScore::new(-7, 77);
    assert_eq!(tracker.set_current_solution(knapsack([true; 4]), Some(given)), Ok(()));
    assert_eq!(calls.get(), 0);
    assert_eq!(tracker.borrow_current_solution(), &knapsack([true; 4]));
    assert_eq!(tracker.get_current_solution_score(), Ok(given));
    assert_eq!(calls.get(), 0);
    assert_eq!(tracker.borrow_best_solution(), None);
}

#[test]
fn a_solution_without_a_score_is_scored_by_the_calculator() {
    let mut tracker = tracker(knapsack([false; 4]));
    assert_eq!(tracker.set_current_solution(knapsack([true, true, false, false]), None), Ok(()));
    assert_eq!(tracker.borrow_current_solution(), &knapsack([true, true, false, false]));
    assert_eq!(tracker.get_current_solution_score(), Ok(HardSoftIntScore::new(-3, 15)));
    assert_eq!(tracker.borrow_best_solution(), None);
}

#[test]
fn a_malformed_solution_leaves_the_tracker_as_it_was() {
    let mut tracker = tracker(knapsack([false; 4]));
    assert_eq!(tracker.set_current_and_best(knapsack([true, false, false, false])), Ok(true));
    assert_eq!(tracker.set_current_solution(empty_knapsack(), None), Err(MalformedSolution));
    assert_eq!(tracker.set_current_and_best(empty_knapsack()), Err(MalformedSolution));
    assert_eq!(tracker.borrow_current_solution(), &knapsack([true, false, false, false]));
    assert_eq!(tracker.get_current_solution_score(), Ok(HardSoftIntScore::new(0, 5)));
    assert_eq!(tracker.borrow_best_solution(), Some(&knapsack([true, false, false, false])));
    assert_eq!(tracker.get_best_solution_score(), Some(HardSoftIntScore::new(0, 5)));
}

#[test]
fn the_first_solution_becomes_the_best() {
    let mut tracker = tracker(knapsack([false; 4]));
    assert_eq!(tracker.set_current_and_best(knapsack([true, true, true, true])), Ok(true));
    assert_eq!(tracker.borrow_best_solution(), Some(&knapsack([true; 4])));
    assert_eq!(tracker.get_best_solution_score(), Some(HardSoftIntScore::new(-5, 25)));
}

#[test]
fn the_best_is_replaced_only_by_a_strictly_better_solution() {
    let mut tracker = tracker(knapsack([false; 4]));
    assert_eq!(tracker.set_current_and_best(knapsack([true, false, false, false])), Ok(true));
    assert_eq!(tracker.set_current_and_best(knapsack([false, false, true, false])), Ok(false));
    assert_eq!(tracker.borrow_current_solution(), &knapsack([false, false, true, false]));
    assert_eq!(tracker.borrow_best_solution(), Some(&knapsack([true, false, false, false])));

    assert_eq!(tracker.set_current_and_best(knapsack([false, true, false, false])), Ok(false));
    assert_eq!(tracker.get_current_solution_score(), Ok(HardSoftIntScore::new(-2, 10)));
    assert_eq!(tracker.get_best_solution_score(), Some(HardSoftIntScore::new(0, 5)));

    assert_eq!(tracker.set_current_and_best(knapsack([true, false, true, true])), Ok(true));
    assert_eq!(tracker.borrow_best_solution(), Some(&knapsack([true, false, true, true])));
    assert_eq!(tracker.get_best_solution_score(), Some(HardSoftIntScore::new(0, 15)));
}

#[test]
fn the_best_score_never_gets_worse() {
    let mut tracker = tracker(knapsack([false; 4]));
    let mut best: Option<HardSoftIntScore> = None;
    let sequence = [
        [true, true, true, true],
        [false, true, false, false],
        [false, false, false, false],
        [true, false, false, false],
        [true, true, false, false],
        [true, false, true, false],
        [false, false, true, false],
        [true, false, true, true],
        [true, true, true, true],
    ];
    for in_knapsack in sequence {
        let improved = tracker.set_current_and_best(knapsack(in_knapsack)).unwrap();
        let now = tracker.get_best_solution_score().unwrap();
        match best {
            Some(before) => {
                assert!(now == before || now.better_than(&before));
                assert_eq!(improved, now.better_than(&before));
            }
            None => assert!(improved),
        }
        best = Some(now);
    }
    assert_eq!(best, Some(HardSoftIntScore::new(0, 15)));
}

#[test]
fn the_tracker_scores_any_solution() {
    let tracker = tracker(knapsack([false; 4]));
    assert_eq!(tracker.calculate_score(&knapsack([true, false, true, false])), Ok(HardSoftIntScore::new(0, 10)));
    assert_eq!(tracker.calculate_score(&empty_knapsack()), Err(MalformedSolution));
    assert_eq!(tracker.borrow_current_solution(), &knapsack([false; 4]));
}

#[test]
fn a_solution_knows_its_identity() {
    assert_eq!(knapsack([false; 4]).get_solution_uuid(), Uuid::from_u128(1));
    assert_eq!(empty_knapsack().get_solution_uuid(), Uuid::from_u128(2));
}

#[test]
fn the_generator_of_a_scope_comes_from_the_seed() {
    let mut scope = SolverScope::new(42, tracker(knapsack([false; 4])));
    let mut same = ChaCha8Rng::seed_from_u64(42);
    let mut other = ChaCha8Rng::seed_from_u64(43);
    assert_eq!(scope.thread_rng, same);
    assert_ne!(scope.thread_rng, other);
    let drawn = scope.thread_rng.next_u32();
    assert_eq!(drawn, same.next_u32());
    assert_ne!(drawn, other.next_u32());
}

#[test]
fn every_scope_reaches_the_one_generator_and_the_one_tracker() {
    let mut solver_scope = SolverScope::new(7, tracker(knapsack([false; 4])));
    let mut expected = ChaCha8Rng::seed_from_u64(7);
    {
        let mut phase_scope = PhaseScope { solver_scope: &mut solver_scope };
        assert_eq!(phase_scope.random_generator().next_u32(), expected.next_u32());
        {
            let mut step_scope = StepScope { phase_scope: &mut phase_scope };
            assert_eq!(step_scope.random_generator().next_u32(), expected.next_u32());
            {
                let mut move_scope = MoveScope { step_scope: &mut step_scope };
                assert_eq!(move_scope.random_generator().next_u32(), expected.next_u32());
                assert_eq!(
                    move_scope.solution_tracker().set_current_and_best(knapsack([true, false, false, false])),
                    Ok(true)
                );
            }
            assert_eq!(
                step_scope.solution_tracker().borrow_current_solution(),
                &knapsack([true, false, false, false])
            );
        }
        assert_eq!(
            phase_scope.solution_tracker().get_best_solution_score(),
            Some(HardSoftIntScore::new(0, 5))
        );
    }
    assert_eq!(solver_scope.thread_rng.next_u32(), expected.next_u32());
    assert_eq!(solver_scope.solution_tracker.borrow_best_solution(), Some(&knapsack([true, false, false, false])));
}

#[test]
fn a_selector_yields_no_more_than_it_was_asked_for() {
    let selector = KnapsackMoveSelector { item_count: 4 };
    let solution = knapsack([false; 4]);
    for max_amount in [0u32, 1, 3, 10] {
        let mut solver_scope = SolverScope::new(5, tracker(solution.clone()));
        let mut phase_scope = PhaseScope { solver_scope: &mut solver_scope };
        let mut step_scope = StepScope { phase_scope: &mut phase_scope };
        let moves = selector.get_vec(max_amount, &solution, &mut step_scope);
        assert_eq!(moves.len(), max_amount as usize);
    }
}

#[test]
fn selectors_fed_the_same_seed_yield_the_same_candidates() {
    let selector = KnapsackMoveSelector { item_count: 4 };
    let solution = knapsack([false; 4]);
    let mut yields = Vec::new();
    for seed in [99u64, 99, 100] {
        let mut solver_scope = SolverScope::new(seed, tracker(solution.clone()));
        let mut phase_scope = PhaseScope { solver_scope: &mut solver_scope };
        let mut step_scope = StepScope { phase_scope: &mut phase_scope };
        let mut moves = selector.get_vec(10, &solution, &mut step_scope);
        moves.extend(selector.get_vec(10, &solution, &mut step_scope));
        yields.push(moves);
    }
    assert_eq!(yields[0], yields[1]);
    assert_ne!(yields[0], yields[2]);
    assert_eq!(solution, knapsack([false; 4]));
}

#[test]
fn a_solve_is_reproducible_from_its_seed() {
    let mut draws = Vec::new();
    let mut bests = Vec::new();
    for seed in [3u64, 3, 4] {
        let drawn = Rc::new(RefCell::new(Vec::new()));
        let mut solver = solver_of(vec![Box::new(hill_climbing(5, drawn.clone()))], seed);
        assert_eq!(solver.solve(knapsack([false; 4])), Ok(()));
        draws.push(drawn.borrow().clone());
        bests.push(solver.score_director().get_best_solution_score());
    }
    assert!(!draws[0].is_empty());
    assert_eq!(draws[0], draws[1]);
    assert_eq!(bests[0], bests[1]);
    assert_ne!(draws[0], draws[2]);
}

#[test]
fn a_second_solve_starts_from_the_seed_again() {
    let drawn = Rc::new(RefCell::new(Vec::new()));
    let mut solver = solver_of(vec![Box::new(hill_climbing(1, drawn.clone()))], 11);
    assert_eq!(solver.solve(knapsack([true; 4])), Ok(()));
    let first = drawn.borrow().clone();
    drawn.borrow_mut().clear();
    assert_eq!(solver.solve(knapsack([true; 4])), Ok(()));
    assert_eq!(*drawn.borrow(), first);
    assert_eq!(solver.random_seed, 11);
}

#[test]
fn hill_climbing_packs_the_knapsack() {
    let drawn = Rc::new(RefCell::new(Vec::new()));
    let mut solver = solver_of(vec![Box::new(hill_climbing(50, drawn))], 1);
    assert_eq!(solver.solve(knapsack([false; 4])), Ok(()));
    let tracker = solver.score_director();
    assert_eq!(tracker.get_best_solution_score(), Some(HardSoftIntScore::new(0, 15)));
    assert_eq!(tracker.borrow_best_solution(), Some(&knapsack([true, false, true, true])));
    assert_eq!(tracker.borrow_current_solution(), &knapsack([true, false, true, true]));
}

#[test]
fn the_phases_run_in_their_order() {
    let log = Rc::new(RefCell::new(Vec::new()));
    let mut solver = solver_of(
        vec![reporting("first", &log, None), reporting("second", &log, None), reporting("third", &log, None)],
        0,
    );
    assert_eq!(solver.solve(knapsack([false; 4])), Ok(()));
    assert_eq!(*log.borrow(), vec!["first ran", "second ran", "third ran"]);
    assert_eq!(solver.phase_list.len(), 3);
}

#[test]
fn each_phase_works_on_what_the_one_before_left() {
    let log = Rc::new(RefCell::new(Vec::new()));
    let mut solver = solver_of(
        vec![
            reporting("first", &log, Some(knapsack([true, false, false, false]))),
            reporting("second", &log, Some(knapsack([true, true, false, false]))),
            reporting("third", &log, Some(knapsack([true, false, true, false]))),
            reporting("fourth", &log, Some(knapsack([false, false, false, true]))),
        ],
        0,
    );
    assert_eq!(solver.solve(knapsack([false; 4])), Ok(()));
    let tracker = solver.score_director();
    assert_eq!(tracker.borrow_current_solution(), &knapsack([false, false, false, true]));
    assert_eq!(tracker.borrow_best_solution(), Some(&knapsack([true, false, true, false])));
    assert_eq!(tracker.get_best_solution_score(), Some(HardSoftIntScore::new(0, 10)));
}

#[test]
fn a_solve_takes_the_solution_as_the_current_one() {
    let mut solver = solver_of(Vec::new(), 0);
    assert_eq!(solver.solve(knapsack([false, true, false, false])), Ok(()));
    let tracker = &mut solver.solver_scope.solution_tracker;
    assert_eq!(tracker.borrow_current_solution(), &knapsack([false, true, false, false]));
    assert_eq!(tracker.get_current_solution_score(), Ok(HardSoftIntScore::new(-2, 10)));
    assert_eq!(tracker.borrow_best_solution(), None);
}

#[test]
fn the_termination_condition_is_asked_before_each_phase() {
    for (at, ran) in [(0u32, 0usize), (1, 1), (2, 2), (3, 3), (9, 3)] {
        let log = Rc::new(RefCell::new(Vec::new()));
        let mut solver = Solver::new(
            vec![reporting("first", &log, None), reporting("second", &log, None), reporting("third", &log, None)],
            TerminateAtCheck { checks: Cell::new(0), at },
            Vec::new(),
            tracker(knapsack([false; 4])),
            0,
        );
        assert_eq!(solver.solve(knapsack([false; 4])), Ok(()));
        assert_eq!(log.borrow().len(), ran);
    }
}

#[test]
fn a_malformed_solution_ends_the_solve_before_it_starts() {
    let log = Rc::new(RefCell::new(Vec::new()));
    let listener = LoggingListener { name: "listener", log: log.clone(), fails: false };
    let mut solver = Solver::new(
        vec![reporting("first", &log, None)],
        NeverTerminate,
        vec![Box::new(listener)],
        tracker(knapsack([true, false, false, false])),
        5,
    );
    let generator = solver.solver_scope.thread_rng.clone();
    assert_eq!(solver.solve(empty_knapsack()), Err(MalformedSolution));
    assert!(log.borrow().is_empty());
    assert_eq!(solver.score_director().borrow_current_solution(), &knapsack([true, false, false, false]));
    assert_eq!(solver.solver_scope.thread_rng, generator);
}

#[test]
fn a_failure_in_a_phase_ends_the_solve() {
    let log = Rc::new(RefCell::new(Vec::new()));
    let listener = LoggingListener { name: "listener", log: log.clone(), fails: false };
    let mut solver = Solver::new(
        vec![
            reporting("first", &log, Some(knapsack([true, false, false, false]))),
            reporting("second", &log, Some(empty_knapsack())),
            reporting("third", &log, Some(knapsack([true, false, true, true]))),
        ],
        NeverTerminate,
        vec![Box::new(listener)],
        tracker(knapsack([false; 4])),
        5,
    );
    assert_eq!(solver.solve(knapsack([false; 4])), Err(MalformedSolution));
    assert_eq!(
        *log.borrow(),
        vec!["listener solving started", "first ran", "second ran", "listener solving ended"]
    );
    assert_eq!(solver.score_director().borrow_best_solution(), Some(&knapsack([true, false, false, false])));
}

#[test]
fn listeners_hear_the_solve_once_each_in_the_order_of_registration() {
    let log = Rc::new(RefCell::new(Vec::new()));
    let mut solver = Solver::new(
        vec![reporting("first", &log, None), reporting("second", &log, None)],
        NeverTerminate,
        vec![
            Box::new(LoggingListener { name: "a", log: log.clone(), fails: false }),
            Box::new(LoggingListener { name: "b", log: log.clone(), fails: false }),
        ],
        tracker(knapsack([false; 4])),
        5,
    );
    assert_eq!(solver.solve(knapsack([false; 4])), Ok(()));
    assert_eq!(
        *log.borrow(),
        vec![
            "a solving started",
            "b solving started",
            "first ran",
            "second ran",
            "a solving ended",
            "b solving ended"
        ]
    );
}

#[test]
fn a_failing_listener_does_not_stop_the_solve() {
    let log = Rc::new(RefCell::new(Vec::new()));
    let mut solver = Solver::new(
        vec![reporting("first", &log, Some(knapsack([true, false, true, true])))],
        NeverTerminate,
        vec![
            Box::new(LoggingListener { name: "a", log: log.clone(), fails: true }),
            Box::new(LoggingListener { name: "b", log: log.clone(), fails: false }),
            Box::new(LoggingListener { name: "c", log: log.clone(), fails: true }),
        ],
        tracker(knapsack([false; 4])),
        5,
    );
    assert_eq!(solver.solve(knapsack([false; 4])), Ok(()));
    assert_eq!(log.borrow().len(), 7);
    assert_eq!(solver.score_director().get_best_solution_score(), Some(HardSoftIntScore::new(0, 15)));
    log.borrow_mut().clear();
    assert_eq!(solver.fire_solver_begin(), 2);
    assert_eq!(*log.borrow(), vec!["a solving started", "b solving started", "c solving started"]);
    log.borrow_mut().clear();
    assert_eq!(solver.fire_solver_end(), 2);
    assert_eq!(*log.borrow(), vec!["a solving ended", "b solving ended", "c solving ended"]);
}

#[test]
fn the_listeners_of_a_phase_hear_it_start_and_end() {
    let log = Rc::new(RefCell::new(Vec::new()));
    let config: KnapsackPhaseConfig = PhaseConfig {
        move_selector: Box::new(KnapsackMoveSelector { item_count: 4 }),
        termination: Box::new(NeverTerminate),
        phase_listeners: vec![
            Box::new(LoggingListener { name: "a", log: log.clone(), fails: false }),
            Box::new(LoggingListener { name: "b", log: log.clone(), fails: true }),
        ],
    };
    let mut solver_scope = SolverScope::new(0, tracker(knapsack([false; 4])));
    let mut phase_scope = PhaseScope { solver_scope: &mut solver_scope };
    assert_eq!(config.fire_phase_started(&mut phase_scope), 1);
    assert_eq!(config.fire_phase_ended(&mut phase_scope), 1);
    assert_eq!(
        *log.borrow(),
        vec!["a phase started", "b phase started", "a phase ended", "b phase ended"]
    );
    let phase = HillClimbingPhase { phase_config: config, steps: 2, drawn: Rc::new(RefCell::new(Vec::new())) };
    log.borrow_mut().clear();
    assert_eq!(phase.do_phase(&mut solver_scope), Ok(()));
    assert_eq!(log.borrow().len(), 4);
}
