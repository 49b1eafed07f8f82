//! Candles: fixed-interval price records.

use crate::decimal::Decimal;
use vstd::prelude::*;

verus! {

/// One candle of one symbol and interval. `timestamp` is the Unix time in
/// seconds at which the candle's interval ends, and identifies the candle
/// within its series.
#[derive(Clone, Copy, Debug, PartialEq, Eq, Structural)]
pub struct Candle {
    pub open: Decimal,
    pub high: Decimal,
    pub low: Decimal,
    pub close: Decimal,
    pub volume: Decimal,
    pub open_interest: Option<Decimal>,
    pub funding_rate: Option<Decimal>,
    pub timestamp: i64,
}

/// The closes of a series of candles, in units.
pub open spec fn closes_of(candles: Seq<Candle>) -> Seq<int> {
    Seq::new(candles.len(), |i: int| candles[i].close.units as int)
}

/// An exponential moving average of closes over a period.
#[derive(Clone, Copy, Debug, PartialEq, Eq, Structural)]
pub struct EmaIndicator {
    pub value: Decimal,
    pub period: u32,
}

/// A relative strength index, between zero and one hundred.
#[derive(Clone, Copy, Debug, PartialEq, Eq, Structural)]
pub struct RsiIndicator {
    pub value: Decimal,
    pub period: Option<u32>,
}

/// An average true range over a period.
#[derive(Clone, Copy, Debug, PartialEq, Eq, Structural)]
pub struct AtrIndicator {
    pub value: Decimal,
    pub period: u32,
}

/// The three numbers of the MACD: the difference of a fast and a slow
/// average, the average of that difference, and what lies between the two.
#[derive(Clone, Copy, Debug, PartialEq, Eq)]
pub struct MacdIndicator {
    pub macd: Decimal,
    pub signal: Decimal,
    pub histogram: Decimal,
    pub period: Option<(u32, u32, u32)>,
}

/// Whether a candle's prices are consistent: the low is the lowest and the
/// high the highest of its four prices, and the volume is not negative.
pub open spec fn candle_consistent(c: Candle) -> bool {
    &&& c.low.units <= c.open.units <= c.high.units
    &&& c.low.units <= c.close.units <= c.high.units
    &&& c.volume.units >= 0
}

impl Candle {
    /// A candle without open interest and funding rate.
    pub fn new(
        open: Decimal,
        high: Decimal,
        low: Decimal,
        close: Decimal,
        volume: Decimal,
        timestamp: i64,
    ) -> (r: Candle)
        ensures
            r == (Candle {
                open,
                high,
                low,
                close,
                volume,
                open_interest: None,
                funding_rate: None,
                timestamp,
            }),
    {
        Candle {
            open,
            high,
            low,
            close,
            volume,
            open_interest: None,
            funding_rate: None,
            timestamp,
        }
    }

    /// The same candle with the given open interest.
    pub fn with_open_interest(self, open_interest: Decimal) -> (r: Candle)
        ensures
            r == (Candle { open_interest: Some(open_interest), ..self }),
    {
        Candle { open_interest: Some(open_interest), ..self }
    }

    /// The same candle with the given funding rate.
    pub fn with_funding_rate(self, funding_rate: Decimal) -> (r: Candle)
        ensures
            r == (Candle { funding_rate: Some(funding_rate), ..self }),
    {
        Candle { funding_rate: Some(funding_rate), ..self }
    }

    /// Whether the prices are consistent and the volume is not negative.
    pub fn is_consistent(&self) -> (r: bool)
        ensures
            r == candle_consistent(*self),
    {
        self.low.units <= self.open.units && self.open.units <= self.high.units
            && self.low.units <= self.close.units && self.close.units <= self.high.units
            && self.volume.units >= 0
    }
}

} // verus!
