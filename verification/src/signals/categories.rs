//! The fixed weights of the four scoring categories.

use crate::decimal::{magnitude, SCALE};
use vstd::prelude::*;

verus! {

/// The weight of momentum: a quarter.
pub const MOMENTUM: i64 = 25_000_000;

/// The weight of trend: thirty-five hundredths.
pub const TREND: i64 = 35_000_000;

/// The weight of volatility: a fifth.
pub const VOLATILITY: i64 = 20_000_000;

/// The weight of market structure: a fifth.
pub const MARKET_STRUCTURE: i64 = 20_000_000;

/// How far the weights may add up away from one: a thousandth.
pub const WEIGHT_SUM_TOLERANCE: i64 = 100_000;

/// The fixed category weights.
pub struct CategoryWeights;

impl CategoryWeights {
    /// Whether the weights add up to one, within the tolerance.
    pub fn verify() -> (r: bool)
        ensures
            r == (magnitude(MOMENTUM + TREND + VOLATILITY + MARKET_STRUCTURE - SCALE)
                < WEIGHT_SUM_TOLERANCE),
            r,
    {
        let sum: i64 = MOMENTUM + TREND + VOLATILITY + MARKET_STRUCTURE;
        let distance: i64 = if sum >= SCALE {
            sum - SCALE
        } else {
            SCALE - sum
        };
        distance < WEIGHT_SUM_TOLERANCE
    }
}

} // verus!
