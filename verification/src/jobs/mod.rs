//! The jobs of the evaluation pipeline and the decisions of their handlers.

pub mod handlers;
pub mod types;
