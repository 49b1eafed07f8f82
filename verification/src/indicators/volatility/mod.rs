//! Volatility indicators: the average true range and the middle Bollinger
//! band.

pub mod atr;
pub mod bollinger;
