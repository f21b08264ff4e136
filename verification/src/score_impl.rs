//! Score types that ship with the engine.

pub mod hard_soft_int_score;
pub mod wrapping;
