//! Configuration values.

use crate::decimal::Decimal;
use vstd::prelude::*;

verus! {

/// The share of each indicator category in a combined score.
#[derive(Clone, Copy, Debug, PartialEq, Eq, Structural)]
pub struct CategoryWeights {
    pub momentum: Decimal,
    pub trend: Decimal,
    pub volatility: Decimal,
    pub volume: Decimal,
    pub perp: Decimal,
}

} // verus!
