//! A metaheuristic optimisation engine: reversible moves over a candidate
//! solution, an algebraic score to rank candidates, a branched registry of
//! planning values, and a solver loop that keeps the best solution seen.

pub mod entity_registry;
pub mod ids;
pub mod random;
pub mod score;
pub mod score_impl;
pub mod solution;
pub mod solver;
pub mod termination;

pub mod value_table;
