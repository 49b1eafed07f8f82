//! Momentum indicators: RSI and MACD.

pub mod macd;
pub mod rsi;
