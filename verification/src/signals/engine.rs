//! The entry point of signal evaluation.

use crate::models::indicators::Candle;
use crate::models::signal::SignalOutput;
use crate::models::strategy::Strategy;
use crate::decimal::Decimal;
use crate::strategies::evaluator::{
    computed_values, evaluation_yields, IndicatorValues, StrategyEvaluator,
};
use vstd::prelude::*;

verus! {

/// The number of candles below which no strategy is evaluated.
pub const MIN_CANDLES: usize = 50;

/// The signal engine. It holds no state.
pub struct SignalEngine;

impl SignalEngine {
    /// Evaluates a strategy on a series of candles, oldest first, and the
    /// indicator values computed from them, at the time `now_ms`.
    pub fn evaluate(
        candles: &[Candle],
        strategy: &Strategy,
        values: &IndicatorValues,
        now_ms: i64,
    ) -> (r: Option<SignalOutput>)
        ensures
            evaluation_yields(r, *strategy, candles@, *values, now_ms),
    {
        StrategyEvaluator::evaluate_strategy(strategy, candles, values, now_ms)
    }

    /// Evaluates as `evaluate_candles` does, and returns with the signal the
    /// indicator values on which it rests.
    pub fn evaluate_with_indicators(candles: &[Candle], strategy: &Strategy, now_ms: i64) -> (r:
        Option<(SignalOutput, IndicatorValues)>)
        ensures
            candles@.len() == 0 ==> r is None,
            candles@.len() > 0 ==> match r {
                Some(pair) => pair.1 == computed_values(candles@, candles@.last().close)
                    && evaluation_yields(Some(pair.0), *strategy, candles@, pair.1, now_ms),
                None => evaluation_yields(
                    None,
                    *strategy,
                    candles@,
                    computed_values(candles@, candles@.last().close),
                    now_ms,
                ),
            },
    {
        if candles.len() == 0 {
            return None;
        }
        let price: Decimal = candles[candles.len() - 1].close;
        let values = StrategyEvaluator::compute_indicators(candles, price);
        match StrategyEvaluator::evaluate_strategy(strategy, candles, &values, now_ms) {
            Some(signal) => Some((signal, values)),
            None => None,
        }
    }

    /// Evaluates a strategy on a series of candles, oldest first, with the
    /// indicator values that are computed from the candles themselves, at
    /// the time `now_ms`. A condition on an indicator that is not among
    /// those fails.
    pub fn evaluate_candles(candles: &[Candle], strategy: &Strategy, now_ms: i64) -> (r: Option<
        SignalOutput,
    >)
        ensures
            candles@.len() == 0 ==> r is None,
            candles@.len() > 0 ==> evaluation_yields(
                r,
                *strategy,
                candles@,
                computed_values(candles@, candles@.last().close),
                now_ms,
            ),
    {
        if candles.len() == 0 {
            return None;
        }
        let price: Decimal = candles[candles.len() - 1].close;
        let values = StrategyEvaluator::compute_indicators(candles, price);
        StrategyEvaluator::evaluate_strategy(strategy, candles, &values, now_ms)
    }
}

} // verus!
