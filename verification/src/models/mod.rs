//! Data models shared by the layers of the engine.

pub mod indicators;
pub mod signal;
pub mod strategy;
