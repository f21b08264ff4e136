//! Conditions that end a solve.

pub mod time_based_termination;
