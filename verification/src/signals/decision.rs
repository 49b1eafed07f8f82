//! From a score to a decision: the direction of a signal and its stop-loss
//! and take-profit distances.

use crate::decimal::{Decimal, SCALE};
use crate::models::signal::SignalDirection;
use crate::models::strategy::SignalThresholds;
use vstd::prelude::*;

verus! {

/// The stop-loss distance in average true ranges: one and a half.
pub const SL_ATR_MULTIPLIER: i64 = 150_000_000;

/// The take-profit distance in average true ranges: three.
pub const TP_ATR_MULTIPLIER: i64 = 300_000_000;

/// The direction of a total score, in units, under the thresholds: long at
/// `long_min` and above, else short at `short_max` and below, else neutral.
pub open spec fn direction_for(total: int, thresholds: SignalThresholds) -> SignalDirection {
    if total >= thresholds.long_min * SCALE {
        SignalDirection::Long
    } else if total <= thresholds.short_max * SCALE {
        SignalDirection::Short
    } else {
        SignalDirection::Neutral
    }
}

/// `multiplier` average true ranges as a fraction of the price, in units,
/// rounded down and capped at the largest representable value. Zero unless
/// both the average true range and the price are positive.
pub open spec fn atr_fraction(multiplier: int, atr: int, price: int) -> int {
    if atr > 0 && price > 0 {
        let q = (multiplier * atr) / price;
        if q > i64::MAX {
            i64::MAX as int
        } else {
            q
        }
    } else {
        0
    }
}

/// The stop-loss fraction of a signal, in units: that of the average true
/// range where the signal has a direction and the range is known, else zero.
pub open spec fn stop_loss_units(direction: SignalDirection, atr: Option<Decimal>, price: int) -> int {
    match atr {
        Some(a) => if direction != SignalDirection::Neutral {
            atr_fraction(SL_ATR_MULTIPLIER as int, a.units as int, price)
        } else {
            0
        },
        None => 0,
    }
}

/// The take-profit fraction of a signal, in units.
pub open spec fn take_profit_units(direction: SignalDirection, atr: Option<Decimal>, price: int) -> int {
    match atr {
        Some(a) => if direction != SignalDirection::Neutral {
            atr_fraction(TP_ATR_MULTIPLIER as int, a.units as int, price)
        } else {
            0
        },
        None => 0,
    }
}

/// The stop-loss fraction is never negative, and the take-profit fraction is
/// never below it.
pub proof fn lemma_risk_fractions_ordered(atr: int, price: int)
    ensures
        0 <= atr_fraction(SL_ATR_MULTIPLIER as int, atr, price) <= atr_fraction(
            TP_ATR_MULTIPLIER as int,
            atr,
            price,
        ),
{
    if atr > 0 && price > 0 {
        let low = 150_000_000 * atr;
        let high = 300_000_000 * atr;
        assert(0 <= low <= high);
        assert(0 <= low / price <= high / price) by (nonlinear_arith)
            requires
                0 <= low <= high,
                price > 0,
        ;
    }
}

/// The direction of a score under the thresholds.
pub fn classify_direction(total: Decimal, thresholds: &SignalThresholds) -> (r: SignalDirection)
    ensures
        r == direction_for(total.units as int, *thresholds),
{
    let long_min = Decimal::from_int(thresholds.long_min);
    let short_max = Decimal::from_int(thresholds.short_max);
    if total.units >= long_min.units {
        SignalDirection::Long
    } else if total.units <= short_max.units {
        SignalDirection::Short
    } else {
        SignalDirection::Neutral
    }
}

/// `multiplier` average true ranges as a fraction of the price.
fn fraction_of_price(multiplier: i64, atr: Decimal, price: Decimal) -> (r: Decimal)
    requires
        0 < multiplier <= 0x4000_0000,
    ensures
        r.units == atr_fraction(multiplier as int, atr.units as int, price.units as int),
{
    if atr.units > 0 && price.units > 0 {
        let m: u128 = multiplier as u128;
        let a: u128 = atr.units as u128;
        assert(m * a <= 0x4000_0000 * 0x8000_0000_0000_0000) by (nonlinear_arith)
            requires
                0 <= m <= 0x4000_0000,
                0 <= a <= 0x8000_0000_0000_0000,
        ;
        let q: u128 = (m * a) / (price.units as u128);
        if q > 0x7fff_ffff_ffff_ffffu128 {
            Decimal { units: i64::MAX }
        } else {
            Decimal { units: q as i64 }
        }
    } else {
        Decimal { units: 0 }
    }
}

/// Stop-loss and take-profit distances.
pub struct StopLossTakeProfit;

impl StopLossTakeProfit {
    /// The stop-loss and take-profit fractions of the price for an average
    /// true range: one and a half ranges and three ranges.
    pub fn calculate_from_atr(atr: Decimal, price: Decimal) -> (r: (Decimal, Decimal))
        ensures
            r.0.units == atr_fraction(SL_ATR_MULTIPLIER as int, atr.units as int, price.units as int),
            r.1.units == atr_fraction(TP_ATR_MULTIPLIER as int, atr.units as int, price.units as int),
            0 <= r.0.units <= r.1.units,
    {
        proof {
            lemma_risk_fractions_ordered(atr.units as int, price.units as int);
        }
        (
            fraction_of_price(SL_ATR_MULTIPLIER, atr, price),
            fraction_of_price(TP_ATR_MULTIPLIER, atr, price),
        )
    }

    /// The fractions for a signal: those of the average true range where the
    /// signal has a direction and the range is known, else zero.
    pub fn for_signal(direction: SignalDirection, atr: Option<Decimal>, price: Decimal) -> (r: (
        Decimal,
        Decimal,
    ))
        ensures
            r.0.units == stop_loss_units(direction, atr, price.units as int),
            r.1.units == take_profit_units(direction, atr, price.units as int),
            0 <= r.0.units <= r.1.units,
    {
        match atr {
            Some(a) => match direction {
                SignalDirection::Neutral => (Decimal::zero(), Decimal::zero()),
                _ => Self::calculate_from_atr(a, price),
            },
            None => (Decimal::zero(), Decimal::zero()),
        }
    }
}

/// A score at or above `long_min` is long; below it, a score at or below
/// `short_max` is short; every other score is neutral.
pub proof fn lemma_direction_respects_thresholds(total: int, thresholds: SignalThresholds)
    ensures
        total >= thresholds.long_min * SCALE ==> direction_for(total, thresholds)
            == SignalDirection::Long,
        total < thresholds.long_min * SCALE && total <= thresholds.short_max * SCALE
            ==> direction_for(total, thresholds) == SignalDirection::Short,
        total < thresholds.long_min * SCALE && total > thresholds.short_max * SCALE
            ==> direction_for(total, thresholds) == SignalDirection::Neutral,
{
}

/// Under thresholds that lie on both sides of zero, a score of zero is
/// neutral.
pub proof fn lemma_zero_score_is_neutral(thresholds: SignalThresholds)
    requires
        thresholds.short_max < 0 < thresholds.long_min,
    ensures
        direction_for(0, thresholds) == SignalDirection::Neutral,
{
    assert(thresholds.long_min * SCALE > 0) by (nonlinear_arith)
        requires
            thresholds.long_min > 0,
            SCALE == 100_000_000,
    ;
    assert(thresholds.short_max * SCALE < 0) by (nonlinear_arith)
        requires
            thresholds.short_max < 0,
            SCALE == 100_000_000,
    ;
}

} // verus!
