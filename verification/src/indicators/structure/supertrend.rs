//! The SuperTrend: a band at so many average true ranges from the middle of
//! each candle, which trails the price and is crossed when the trend turns.

use crate::decimal::{scale_product, scaled_product, trunc_div, Decimal};
use crate::indicators::smoothing::{
    average_after, lemma_average_prefix, saturate, saturated, MovingAverage, Smoothing,
};
use crate::indicators::volatility::atr::{true_range, true_ranges_of};
use crate::models::indicators::Candle;
use vstd::prelude::*;

verus! {

/// The period of the average true range of the SuperTrend.
pub const SUPERTREND_PERIOD: u32 = 10;

/// The distance of the bands from the middle, in average true ranges: three.
pub const SUPERTREND_MULTIPLIER: i64 = 300_000_000;

/// The two trailing bands in units, and whether the trend is rising.
pub struct TrendBands {
    pub upper: int,
    pub lower: int,
    pub rising: bool,
}

/// The SuperTrend after the last candle of a series: the band on the far
/// side of the trend as its value, the trend as one or minus one, and both
/// bands.
#[derive(Clone, Copy, Debug, PartialEq, Eq, Structural)]
pub struct SuperTrendIndicator {
    pub value: Decimal,
    pub trend: i32,
    pub upper_band: Decimal,
    pub lower_band: Decimal,
    pub period: u32,
    pub multiplier: Decimal,
}

/// The middle of a candle: halfway between its high and its low.
pub open spec fn middle_price(candle: Candle) -> int {
    trunc_div(candle.high.units + candle.low.units, 2)
}

/// The band above the middle of a candle for an average true range.
pub open spec fn band_above(candle: Candle, atr: int, multiplier: int) -> int {
    saturated(middle_price(candle) + saturated(scale_product(multiplier, atr)))
}

/// The band below the middle of a candle for an average true range.
pub open spec fn band_below(candle: Candle, atr: int, multiplier: int) -> int {
    saturated(middle_price(candle) - saturated(scale_product(multiplier, atr)))
}

/// The bands after one more candle. The upper band comes down to the band
/// above the candle, and the lower band up to the band below it; a band that
/// the close before had crossed starts anew. A rising trend turns when the
/// close falls below the lower band, a falling one when it rises above the
/// upper band.
pub open spec fn trailed(
    before: TrendBands,
    close_before: int,
    candle: Candle,
    atr: int,
    multiplier: int,
) -> TrendBands {
    let above = band_above(candle, atr, multiplier);
    let below = band_below(candle, atr, multiplier);
    let upper = if above < before.upper || close_before > before.upper {
        above
    } else {
        before.upper
    };
    let lower = if below > before.lower || close_before < before.lower {
        below
    } else {
        before.lower
    };
    let rising = if before.rising {
        candle.close.units >= lower
    } else {
        candle.close.units > upper
    };
    TrendBands { upper, lower, rising }
}

/// The bands after the first `n` candles of a series. There are none before
/// `period` candles; the first bands are those around the candle on which the
/// average true range becomes known, rising where that candle closes at or
/// above its middle.
pub open spec fn supertrend_after(
    candles: Seq<Candle>,
    period: nat,
    multiplier: int,
    n: nat,
) -> Option<TrendBands>
    decreases n,
{
    if n == 0 || n > candles.len() {
        None
    } else {
        match average_after(Smoothing::Wilder, period, true_ranges_of(candles), n) {
            None => None,
            Some(atr) => match supertrend_after(candles, period, multiplier, (n - 1) as nat) {
                None => Some(
                    TrendBands {
                        upper: band_above(candles[n - 1], atr, multiplier),
                        lower: band_below(candles[n - 1], atr, multiplier),
                        rising: candles[n - 1].close.units >= middle_price(candles[n - 1]),
                    },
                ),
                Some(before) => Some(
                    trailed(before, candles[n - 2].close.units as int, candles[n - 1], atr, multiplier),
                ),
            },
        }
    }
}

/// What an indicator must say for given bands.
pub open spec fn shows(indicator: SuperTrendIndicator, bands: TrendBands) -> bool {
    &&& indicator.upper_band.units == bands.upper
    &&& indicator.lower_band.units == bands.lower
    &&& indicator.trend == if bands.rising {
        1i32
    } else {
        -1i32
    }
    &&& indicator.value == if bands.rising {
        indicator.lower_band
    } else {
        indicator.upper_band
    }
}

/// The middle of a candle.
fn middle_of(candle: &Candle) -> (r: i128)
    ensures
        r == middle_price(*candle),
{
    let sum: i128 = candle.high.units as i128 + candle.low.units as i128;
    if sum >= 0 {
        sum / 2
    } else {
        -((-sum) / 2)
    }
}

/// The SuperTrend of a series for a period and a multiplier.
pub fn calculate_supertrend(candles: &[Candle], period: u32, multiplier: Decimal) -> (r: Option<
    SuperTrendIndicator,
>)
    ensures
        match r {
            Some(indicator) => indicator.period == period && indicator.multiplier == multiplier
                && match supertrend_after(
                candles@,
                period as nat,
                multiplier.units as int,
                candles@.len(),
            ) {
                Some(bands) => shows(indicator, bands),
                None => false,
            },
            None => supertrend_after(
                candles@,
                period as nat,
                multiplier.units as int,
                candles@.len(),
            ) is None,
        },
        r is Some <==> period >= 1 && candles@.len() >= period,
{
    if period == 0 {
        return None;
    }
    let ghost ranges = true_ranges_of(candles@);
    let ghost m = multiplier.units as int;
    let mut average = MovingAverage::new(Smoothing::Wilder, period);
    let mut bands: Option<(i64, i64, bool)> = None;
    let mut i: usize = 0;
    assert(ranges.take(0) =~= Seq::<int>::empty());
    while i < candles.len()
        invariant
            i <= candles.len(),
            period >= 1,
            ranges == true_ranges_of(candles@),
            m == multiplier.units,
            average.smoothing() == Smoothing::Wilder,
            average.span() == period,
            average.samples() == ranges.take(i as int),
            bands is Some <==> i >= period,
            match bands {
                Some(b) => supertrend_after(candles@, period as nat, m, i as nat) == Some(
                    TrendBands { upper: b.0 as int, lower: b.1 as int, rising: b.2 },
                ),
                None => supertrend_after(candles@, period as nat, m, i as nat) is None,
            },
        decreases candles.len() - i,
    {
        let atr = average.update(Decimal { units: true_range(candles, i) });
        proof {
            assert(ranges.take(i as int + 1) =~= ranges.take(i as int).push(ranges[i as int]));
            lemma_average_prefix(
                Smoothing::Wilder,
                period as nat,
                ranges,
                i as int + 1,
                (i + 1) as nat,
            );
        }
        bands =
        match atr {
            None => None,
            Some(range) => {
                let middle = middle_of(&candles[i]);
                let reach = saturate(scaled_product(multiplier.units, range.units)) as i128;
                let above = saturate(middle + reach);
                let below = saturate(middle - reach);
                let close = candles[i].close.units;
                match bands {
                    None => Some((above, below, close as i128 >= middle)),
                    Some(before) => {
                        let close_before = candles[i - 1].close.units;
                        let upper = if above < before.0 || close_before > before.0 {
                            above
                        } else {
                            before.0
                        };
                        let lower = if below > before.1 || close_before < before.1 {
                            below
                        } else {
                            before.1
                        };
                        let rising = if before.2 {
                            close >= lower
                        } else {
                            close > upper
                        };
                        Some((upper, lower, rising))
                    },
                }
            },
        };
        i = i + 1;
    }
    match bands {
        Some(b) => {
            let upper_band = Decimal { units: b.0 };
            let lower_band = Decimal { units: b.1 };
            Some(
                SuperTrendIndicator {
                    value: if b.2 {
                        lower_band
                    } else {
                        upper_band
                    },
                    trend: if b.2 {
                        1
                    } else {
                        -1
                    },
                    upper_band,
                    lower_band,
                    period,
                    multiplier,
                },
            )
        },
        None => None,
    }
}

/// The SuperTrend of a series for the period ten and the multiplier three.
pub fn calculate_supertrend_default(candles: &[Candle]) -> (r: Option<SuperTrendIndicator>)
    ensures
        match r {
            Some(indicator) => indicator.period == SUPERTREND_PERIOD && indicator.multiplier.units
                == SUPERTREND_MULTIPLIER && match supertrend_after(
                candles@,
                SUPERTREND_PERIOD as nat,
                SUPERTREND_MULTIPLIER as int,
                candles@.len(),
            ) {
                Some(bands) => shows(indicator, bands),
                None => false,
            },
            None => supertrend_after(
                candles@,
                SUPERTREND_PERIOD as nat,
                SUPERTREND_MULTIPLIER as int,
                candles@.len(),
            ) is None,
        },
        r is Some <==> candles@.len() >= SUPERTREND_PERIOD,
{
    calculate_supertrend(candles, SUPERTREND_PERIOD, Decimal { units: SUPERTREND_MULTIPLIER })
}

} // verus!
