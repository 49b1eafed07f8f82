//! Market structure: the SuperTrend.

pub mod supertrend;
