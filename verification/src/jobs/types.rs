//! The payloads of the three job queues.

use crate::models::indicators::Candle;
use crate::models::signal::SignalOutput;
use vstd::prelude::*;

verus! {

/// Asks for the candles of a symbol to be fetched.
#[derive(Clone, Debug, PartialEq, Eq)]
pub struct FetchCandlesJob {
    pub symbol: String,
}

/// Asks for the strategies of a symbol to be evaluated on its candles.
#[derive(Clone, Debug, PartialEq, Eq)]
pub struct EvaluateSignalJob {
    pub symbol: String,
    pub candles: Vec<Candle>,
}

/// Asks for a signal to be stored.
#[derive(Clone, Debug, PartialEq, Eq)]
pub struct StoreSignalJob {
    pub symbol: String,
    pub signal: SignalOutput,
    pub strategy_id: i64,
}

} // verus!
