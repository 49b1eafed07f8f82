//! Signal evaluation: the entry point of the engine and the decisions that
//! follow a score.

pub mod categories;
pub mod decision;
pub mod engine;
