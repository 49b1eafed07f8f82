//! The average true range.

use crate::decimal::{magnitude, Decimal};
use crate::indicators::smoothing::{
    average_after, lemma_average_within, saturate, saturated, within_upto, MovingAverage,
    Smoothing,
};
use crate::models::indicators::{AtrIndicator, Candle};
use vstd::prelude::*;

verus! {

/// The larger of two numbers.
pub open spec fn larger(a: int, b: int) -> int {
    if a >= b {
        a
    } else {
        b
    }
}

/// The true range of a candle of a series, in units: the largest of the
/// distance from its low to its high and the distances of the two from the
/// close before it; for the first candle the distance from low to high.
pub open spec fn true_range_at(candles: Seq<Candle>, i: int) -> int {
    let span = magnitude(candles[i].high.units - candles[i].low.units);
    if i <= 0 {
        saturated(span)
    } else {
        let before = candles[i - 1].close.units;
        saturated(
            larger(
                span,
                larger(
                    magnitude(candles[i].high.units - before),
                    magnitude(candles[i].low.units - before),
                ),
            ),
        )
    }
}

/// The true ranges of a series, one for each candle.
pub open spec fn true_ranges_of(candles: Seq<Candle>) -> Seq<int> {
    Seq::new(candles.len(), |i: int| true_range_at(candles, i))
}

/// The average true range of a series over a period, in units: the Wilder
/// average of the true ranges. There is none before `period` candles.
pub open spec fn atr_of(candles: Seq<Candle>, period: nat) -> Option<int> {
    average_after(Smoothing::Wilder, period, true_ranges_of(candles), candles.len())
}

/// The distance between two numbers.
fn distance(a: i64, b: i64) -> (r: i128)
    ensures
        r == magnitude(a - b),
{
    let d: i128 = a as i128 - b as i128;
    if d >= 0 {
        d
    } else {
        -d
    }
}

/// The true range of the candle at position `i` of a series.
pub fn true_range(candles: &[Candle], i: usize) -> (r: i64)
    requires
        i < candles@.len(),
    ensures
        r == true_range_at(candles@, i as int),
        r >= 0,
{
    let span = distance(candles[i].high.units, candles[i].low.units);
    let range: i128 = if i == 0 {
        span
    } else {
        let before = candles[i - 1].close.units;
        let up = distance(candles[i].high.units, before);
        let down = distance(candles[i].low.units, before);
        let far = if up >= down {
            up
        } else {
            down
        };
        if span >= far {
            span
        } else {
            far
        }
    };
    saturate(range)
}

/// The average true range of a series over a period. It is never negative.
pub fn calculate_atr(candles: &[Candle], period: u32) -> (r: Option<AtrIndicator>)
    ensures
        match r {
            Some(atr) => atr.period == period && atr_of(candles@, period as nat) == Some(
                atr.value.units as int,
            ) && atr.value.units >= 0,
            None => atr_of(candles@, period as nat) is None,
        },
        r is Some <==> period >= 1 && candles@.len() >= period,
{
    if period == 0 {
        return None;
    }
    let mut average = MovingAverage::new(Smoothing::Wilder, period);
    let ghost ranges = true_ranges_of(candles@);
    let mut i: usize = 0;
    assert(ranges.take(0) =~= Seq::<int>::empty());
    while i < candles.len()
        invariant
            i <= candles.len(),
            ranges == true_ranges_of(candles@),
            average.smoothing() == Smoothing::Wilder,
            average.span() == period,
            average.samples() == ranges.take(i as int),
        decreases candles.len() - i,
    {
        let sample = true_range(candles, i);
        average.update(Decimal { units: sample });
        assert(ranges.take(i as int + 1) =~= ranges.take(i as int).push(ranges[i as int]));
        i = i + 1;
    }
    assert(ranges.take(i as int) =~= ranges);
    proof {
        assert(within_upto(ranges, ranges.len(), 0, i64::MAX as int));
        lemma_average_within(
            Smoothing::Wilder,
            period as nat,
            ranges,
            ranges.len(),
            0,
            i64::MAX as int,
        );
    }
    match average.value() {
        Some(value) => Some(AtrIndicator { value, period }),
        None => None,
    }
}

/// The average true range of a series over fourteen candles.
pub fn calculate_atr_default(candles: &[Candle]) -> (r: Option<AtrIndicator>)
    ensures
        match r {
            Some(atr) => atr.period == 14 && atr_of(candles@, 14) == Some(
                atr.value.units as int,
            ) && atr.value.units >= 0,
            None => atr_of(candles@, 14) is None,
        },
        r is Some <==> candles@.len() >= 14,
{
    calculate_atr(candles, 14)
}

} // verus!
