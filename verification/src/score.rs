//! The capabilities a score type has to offer to the solver.

use vstd::prelude::*;

verus! {

/// Raised by a score calculator that cannot interpret a solution, for
/// instance because a variable it needs is absent.
#[derive(Clone, Copy, Debug, PartialEq, Eq, Structural)]
pub struct MalformedSolution;

/// A value that summarises the quality of a solution.
///
/// Scores carry a strict order, `better_spec`, by which the solver decides
/// whether a candidate replaces the best solution seen so far.
pub trait ScoreTrait: Sized {
    /// No hard constraint is violated.
    spec fn feasible_spec(&self) -> bool;

    /// The score is the neutral score of its type.
    spec fn is_zero_spec(&self) -> bool;

    /// `self` ranks strictly above `other`.
    spec fn better_spec(&self, other: &Self) -> bool;

    fn feasible(&self) -> (r: bool)
        ensures
            r == self.feasible_spec(),
    ;

    fn is_zero(&self) -> (r: bool)
        ensures
            r == self.is_zero_spec(),
    ;

    fn better_than(&self, other: &Self) -> (r: bool)
        ensures
            r == self.better_spec(other),
    ;

    /// No score ranks above itself.
    proof fn better_is_irreflexive(a: Self)
        ensures
            !a.better_spec(&a),
    ;

    /// Ranking above carries over a chain of two.
    proof fn better_is_transitive(a: Self, b: Self, c: Self)
        requires
            a.better_spec(&b),
            b.better_spec(&c),
        ensures
            a.better_spec(&c),
    ;
}

/// Arithmetic on scores. Every operation leaves its operands alone and
/// hands out a new value.
pub trait ScoreModifier<ScoreType: ScoreTrait> {
    spec fn add_spec(&self, first: ScoreType, second: ScoreType) -> ScoreType;

    spec fn subtract_spec(&self, first: ScoreType, second: ScoreType) -> ScoreType;

    spec fn multiply_spec(&self, first: ScoreType, second: ScoreType) -> ScoreType;

    /// Whether `first` may be divided by `second`.
    spec fn divisible_spec(&self, first: ScoreType, second: ScoreType) -> bool;

    spec fn divide_spec(&self, first: ScoreType, second: ScoreType) -> ScoreType;

    spec fn power_spec(&self, first: ScoreType, other: u32) -> ScoreType;

    spec fn negate_spec(&self, first: ScoreType) -> ScoreType;

    /// The additive identity of the score type.
    spec fn zero_spec() -> ScoreType;

    fn add(&self, first: &ScoreType, second: &ScoreType) -> (r: ScoreType)
        ensures
            r == self.add_spec(*first, *second),
    ;

    fn subtract(&self, first: &ScoreType, second: &ScoreType) -> (r: ScoreType)
        ensures
            r == self.subtract_spec(*first, *second),
    ;

    fn multiply(&self, first: &ScoreType, second: &ScoreType) -> (r: ScoreType)
        ensures
            r == self.multiply_spec(*first, *second),
    ;

    fn divide(&self, first: &ScoreType, second: &ScoreType) -> (r: ScoreType)
        requires
            self.divisible_spec(*first, *second),
        ensures
            r == self.divide_spec(*first, *second),
    ;

    fn power(&self, first: &ScoreType, other: u32) -> (r: ScoreType)
        ensures
            r == self.power_spec(*first, other),
    ;

    fn negate(&self, first: &ScoreType) -> (r: ScoreType)
        ensures
            r == self.negate_spec(*first),
    ;

    fn zero() -> (r: ScoreType)
        ensures
            r == Self::zero_spec(),
            r.is_zero_spec(),
    ;

    /// Sums may be regrouped.
    proof fn add_is_associative(&self, a: ScoreType, b: ScoreType, c: ScoreType)
        ensures
            self.add_spec(self.add_spec(a, b), c) == self.add_spec(a, self.add_spec(b, c)),
    ;

    /// Adding the zero score changes nothing, on either side.
    proof fn zero_is_identity(&self, a: ScoreType)
        ensures
            self.add_spec(a, Self::zero_spec()) == a,
            self.add_spec(Self::zero_spec(), a) == a,
    ;
}

/// Turns a whole solution into its score.
///
/// The score is a function of the solution alone (`score_of`): the same
/// solution always gets the same score, and calculating it changes nothing.
pub trait ScoreCalculator<SolutionType, ScoreType: ScoreTrait> {
    /// The score of `solution`, or the failure to read it.
    spec fn score_of(&self, solution: SolutionType) -> Result<ScoreType, MalformedSolution>;

    fn calculate_score(&self, solution: &SolutionType) -> (r: Result<ScoreType, MalformedSolution>)
        ensures
            r == self.score_of(*solution),
    ;
}

} // verus!
