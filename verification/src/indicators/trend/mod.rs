//! Trend indicators: the EMA crossover.

pub mod ema;
