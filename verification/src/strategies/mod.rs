//! Strategy evaluation.

pub mod evaluator;
pub mod scoring;
