//! A score of two integers: a hard part that counts broken hard
//! constraints below zero, and a soft part that is to be maximised.

use std::cmp::Ordering;
use vstd::prelude::*;
use crate::score::{ScoreModifier, ScoreTrait};
use crate::score_impl::wrapping::{
    lemma_wrap_add_left, lemma_wrap_in_range, power_of, quotient_of, wrap_i32, wrapping_difference,
    wrapping_negation, wrapping_power, wrapping_product, wrapping_quotient, wrapping_sum,
};

verus! {

/// A hard and a soft score.
///
/// A solution is feasible when its hard score is not negative. Scores are
/// ordered by the hard part first and by the soft part among equal hard
/// parts.
#[derive(Clone, Copy, Debug)]
pub struct HardSoftIntScore {
    pub hard_score: i32,
    pub soft_score: i32,
}

impl HardSoftIntScore {
    pub fn new(hard_score: i32, soft_score: i32) -> (score: Self)
        ensures
            score.hard_score == hard_score,
            score.soft_score == soft_score,
    {
        HardSoftIntScore { hard_score, soft_score }
    }

    /// `self` ranks strictly above `other`: by the hard part, then by the
    /// soft part.
    pub open spec fn above(self, other: Self) -> bool {
        self.hard_score > other.hard_score || (self.hard_score == other.hard_score
            && self.soft_score > other.soft_score)
    }
}

impl ScoreTrait for HardSoftIntScore {
    open spec fn feasible_spec(&self) -> bool {
        self.hard_score >= 0
    }

    open spec fn is_zero_spec(&self) -> bool {
        self.hard_score == 0 && self.soft_score == 0
    }

    open spec fn better_spec(&self, other: &Self) -> bool {
        self.above(*other)
    }

    fn feasible(&self) -> (r: bool) {
        self.hard_score >= 0
    }

    fn is_zero(&self) -> (r: bool) {
        self.hard_score == 0 && self.soft_score == 0
    }

    fn better_than(&self, other: &Self) -> (r: bool) {
        self.hard_score > other.hard_score || (self.hard_score == other.hard_score
            && self.soft_score > other.soft_score)
    }

    proof fn better_is_irreflexive(a: Self) {
    }

    proof fn better_is_transitive(a: Self, b: Self, c: Self) {
    }
}

impl PartialEq for HardSoftIntScore {
    fn eq(&self, other: &Self) -> (r: bool) {
        self.hard_score == other.hard_score && self.soft_score == other.soft_score
    }
}

impl vstd::std_specs::cmp::PartialEqSpecImpl for HardSoftIntScore {
    open spec fn obeys_eq_spec() -> bool {
        true
    }

    open spec fn eq_spec(&self, other: &Self) -> bool {
        self.hard_score == other.hard_score && self.soft_score == other.soft_score
    }
}

impl PartialOrd for HardSoftIntScore {
    fn partial_cmp(&self, other: &Self) -> (r: Option<Ordering>) {
        if self.better_than(other) {
            Some(Ordering::Greater)
        } else if other.better_than(self) {
            Some(Ordering::Less)
        } else {
            Some(Ordering::Equal)
        }
    }
}

impl vstd::std_specs::cmp::PartialOrdSpecImpl for HardSoftIntScore {
    open spec fn obeys_partial_cmp_spec() -> bool {
        true
    }

    open spec fn partial_cmp_spec(&self, other: &Self) -> Option<Ordering> {
        if self.above(*other) {
            Some(Ordering::Greater)
        } else if other.above(*self) {
            Some(Ordering::Less)
        } else {
            Some(Ordering::Equal)
        }
    }
}

/// Arithmetic on [`HardSoftIntScore`].
///
/// The hard and the soft part are combined independently of each other.
/// Every operation computes in the integers and wraps the result into the
/// range of `i32`. Division rounds toward zero and needs both parts of the
/// divisor to differ from zero.
#[derive(Clone, Copy, Debug)]
pub struct HardSoftIntScoreModifier;

impl ScoreModifier<HardSoftIntScore> for HardSoftIntScoreModifier {
    open spec fn add_spec(&self, first: HardSoftIntScore, second: HardSoftIntScore) -> HardSoftIntScore {
        HardSoftIntScore {
            hard_score: wrap_i32(first.hard_score + second.hard_score),
            soft_score: wrap_i32(first.soft_score + second.soft_score),
        }
    }

    open spec fn subtract_spec(&self, first: HardSoftIntScore, second: HardSoftIntScore) -> HardSoftIntScore {
        HardSoftIntScore {
            hard_score: wrap_i32(first.hard_score - second.hard_score),
            soft_score: wrap_i32(first.soft_score - second.soft_score),
        }
    }

    open spec fn multiply_spec(&self, first: HardSoftIntScore, second: HardSoftIntScore) -> HardSoftIntScore {
        HardSoftIntScore {
            hard_score: wrap_i32(first.hard_score * second.hard_score),
            soft_score: wrap_i32(first.soft_score * second.soft_score),
        }
    }

    open spec fn divisible_spec(&self, first: HardSoftIntScore, second: HardSoftIntScore) -> bool {
        second.hard_score != 0 && second.soft_score != 0
    }

    open spec fn divide_spec(&self, first: HardSoftIntScore, second: HardSoftIntScore) -> HardSoftIntScore {
        HardSoftIntScore {
            hard_score: wrap_i32(quotient_of(first.hard_score, second.hard_score)),
            soft_score: wrap_i32(quotient_of(first.soft_score, second.soft_score)),
        }
    }

    open spec fn power_spec(&self, first: HardSoftIntScore, other: u32) -> HardSoftIntScore {
        HardSoftIntScore {
            hard_score: wrap_i32(power_of(first.hard_score, other)),
            soft_score: wrap_i32(power_of(first.soft_score, other)),
        }
    }

    open spec fn negate_spec(&self, first: HardSoftIntScore) -> HardSoftIntScore {
        HardSoftIntScore {
            hard_score: wrap_i32(-first.hard_score),
            soft_score: wrap_i32(-first.soft_score),
        }
    }

    open spec fn zero_spec() -> HardSoftIntScore {
        HardSoftIntScore { hard_score: 0, soft_score: 0 }
    }

    fn add(&self, first: &HardSoftIntScore, second: &HardSoftIntScore) -> (r: HardSoftIntScore) {
        HardSoftIntScore {
            hard_score: wrapping_sum(first.hard_score, second.hard_score),
            soft_score: wrapping_sum(first.soft_score, second.soft_score),
        }
    }

    fn subtract(&self, first: &HardSoftIntScore, second: &HardSoftIntScore) -> (r: HardSoftIntScore) {
        HardSoftIntScore {
            hard_score: wrapping_difference(first.hard_score, second.hard_score),
            soft_score: wrapping_difference(first.soft_score, second.soft_score),
        }
    }

    fn multiply(&self, first: &HardSoftIntScore, second: &HardSoftIntScore) -> (r: HardSoftIntScore) {
        HardSoftIntScore {
            hard_score: wrapping_product(first.hard_score, second.hard_score),
            soft_score: wrapping_product(first.soft_score, second.soft_score),
        }
    }

    fn divide(&self, first: &HardSoftIntScore, second: &HardSoftIntScore) -> (r: HardSoftIntScore) {
        HardSoftIntScore {
            hard_score: wrapping_quotient(first.hard_score, second.hard_score),
            soft_score: wrapping_quotient(first.soft_score, second.soft_score),
        }
    }

    fn power(&self, first: &HardSoftIntScore, other: u32) -> (r: HardSoftIntScore) {
        HardSoftIntScore {
            hard_score: wrapping_power(first.hard_score, other),
            soft_score: wrapping_power(first.soft_score, other),
        }
    }

    fn negate(&self, first: &HardSoftIntScore) -> (r: HardSoftIntScore) {
        HardSoftIntScore {
            hard_score: wrapping_negation(first.hard_score),
            soft_score: wrapping_negation(first.soft_score),
        }
    }

    fn zero() -> (r: HardSoftIntScore) {
        HardSoftIntScore { hard_score: 0, soft_score: 0 }
    }

    proof fn add_is_associative(&self, a: HardSoftIntScore, b: HardSoftIntScore, c: HardSoftIntScore) {
        lemma_wrapped_sum_regroups(a.hard_score, b.hard_score, c.hard_score);
        lemma_wrapped_sum_regroups(a.soft_score, b.soft_score, c.soft_score);
    }

    proof fn zero_is_identity(&self, a: HardSoftIntScore) {
        lemma_wrap_in_range(a.hard_score + 0);
        lemma_wrap_in_range(a.soft_score + 0);
        lemma_wrap_in_range(0 + a.hard_score);
        lemma_wrap_in_range(0 + a.soft_score);
    }
}

/// Wrapped sums of three may be regrouped.
pub proof fn lemma_wrapped_sum_regroups(x: i32, y: i32, z: i32)
    ensures
        wrap_i32(wrap_i32(x + y) + z) == wrap_i32(x + wrap_i32(y + z)),
{
    lemma_wrap_add_left(x + y, z as int);
    lemma_wrap_add_left(y + z, x as int);
}

/// A score less itself is the zero score.
pub proof fn lemma_subtract_self_is_zero(modifier: HardSoftIntScoreModifier, x: HardSoftIntScore)
    ensures
        modifier.subtract_spec(x, x) == HardSoftIntScoreModifier::zero_spec(),
{
    lemma_wrap_in_range(x.hard_score - x.hard_score);
    lemma_wrap_in_range(x.soft_score - x.soft_score);
}

/// Adding the zero score gives the score back.
pub proof fn lemma_add_zero_is_identity(modifier: HardSoftIntScoreModifier, x: HardSoftIntScore)
    ensures
        modifier.add_spec(x, HardSoftIntScoreModifier::zero_spec()) == x,
{
    modifier.zero_is_identity(x);
}

} // verus!
