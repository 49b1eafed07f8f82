//! The relative strength index.

use crate::decimal::{Decimal, SCALE};
use crate::indicators::smoothing::{
    average_after, lemma_average_within, saturate, saturated, within_upto, MovingAverage,
    Smoothing,
};
use crate::models::indicators::{closes_of, Candle, RsiIndicator};
use vstd::prelude::*;

verus! {

/// The index below which the market counts as oversold: thirty.
pub const OVERSOLD_BELOW: i64 = 3_000_000_000;

/// The index above which the market counts as overbought: seventy.
pub const OVERBOUGHT_ABOVE: i64 = 7_000_000_000;

/// The largest index: one hundred.
pub const RSI_MAX: i64 = 10_000_000_000;

/// By how much a value rose over the one before it: nothing for the first
/// value and for one that did not rise.
pub open spec fn gain_at(values: Seq<int>, i: int) -> int {
    if i <= 0 || i >= values.len() || values[i] <= values[i - 1] {
        0
    } else {
        saturated(values[i] - values[i - 1])
    }
}

/// By how much a value fell below the one before it.
pub open spec fn loss_at(values: Seq<int>, i: int) -> int {
    if i <= 0 || i >= values.len() || values[i] >= values[i - 1] {
        0
    } else {
        saturated(values[i - 1] - values[i])
    }
}

/// The gains of a sequence of values, one for each value.
pub open spec fn gains_of(values: Seq<int>) -> Seq<int> {
    Seq::new(values.len(), |i: int| gain_at(values, i))
}

/// The losses of a sequence of values, one for each value.
pub open spec fn losses_of(values: Seq<int>) -> Seq<int> {
    Seq::new(values.len(), |i: int| loss_at(values, i))
}

/// The index for an average gain and an average loss, in units: the share of
/// the gain in the sum of both, times one hundred, rounded down; one hundred
/// where there is no loss.
pub open spec fn rsi_units(average_gain: int, average_loss: int) -> int {
    if average_loss <= 0 {
        RSI_MAX as int
    } else {
        (RSI_MAX * average_gain) / (average_gain + average_loss)
    }
}

/// The relative strength index of the closes of a series over a period, in
/// units: the index of the Wilder averages of the gains and the losses.
/// There is none before `period` closes.
pub open spec fn rsi_of(candles: Seq<Candle>, period: nat) -> Option<int> {
    match (
        average_after(Smoothing::Wilder, period, gains_of(closes_of(candles)), candles.len()),
        average_after(Smoothing::Wilder, period, losses_of(closes_of(candles)), candles.len()),
    ) {
        (Some(gain), Some(loss)) => Some(rsi_units(gain, loss)),
        _ => None,
    }
}

/// The state that an index stands for: oversold below thirty, overbought
/// above seventy, neutral between.
pub open spec fn rsi_state(value: int) -> RSISignal {
    if value < OVERSOLD_BELOW {
        RSISignal::Oversold
    } else if value > OVERBOUGHT_ABOVE {
        RSISignal::Overbought
    } else {
        RSISignal::Neutral
    }
}

/// An index lies between zero and one hundred.
pub proof fn lemma_rsi_units_bounds(average_gain: int, average_loss: int)
    requires
        average_gain >= 0,
        average_loss >= 0,
    ensures
        0 <= rsi_units(average_gain, average_loss) <= RSI_MAX,
{
    if average_loss > 0 {
        let sum = average_gain + average_loss;
        let scaled = RSI_MAX * average_gain;
        assert(0 <= scaled <= RSI_MAX * sum) by (nonlinear_arith)
            requires
                scaled == RSI_MAX * average_gain,
                0 <= average_gain <= sum,
                RSI_MAX == 10_000_000_000,
        ;
        assert(0 <= scaled / sum <= RSI_MAX) by (nonlinear_arith)
            requires
                0 <= scaled <= RSI_MAX * sum,
                sum > 0,
        ;
    }
}

/// Number of samples that the RSI consumes before it has a value.
pub const RSI_PERIOD: usize = 14;

/// The state that the RSI reports.
#[derive(Clone, Copy, Debug, PartialEq, Eq, Structural)]
pub enum RSISignal {
    Oversold,
    Overbought,
    BullishDivergence,
    BearishDivergence,
    Neutral,
}

/// The name by which a condition refers to a state; the neutral state has
/// none.
pub open spec fn rsi_signal_name(signal: RSISignal) -> Option<Seq<char>> {
    match signal {
        RSISignal::Oversold => Some("Oversold"@),
        RSISignal::Overbought => Some("Overbought"@),
        RSISignal::BullishDivergence => Some("BullishDivergence"@),
        RSISignal::BearishDivergence => Some("BearishDivergence"@),
        RSISignal::Neutral => None,
    }
}

impl RSISignal {
    /// The name by which a condition refers to this state, if it has one.
    pub fn name(&self) -> (r: Option<&'static str>)
        ensures
            r matches Some(n) ==> rsi_signal_name(*self) == Some(n@),
            r is None ==> rsi_signal_name(*self) is None,
    {
        match self {
            RSISignal::Oversold => Some("Oversold"),
            RSISignal::Overbought => Some("Overbought"),
            RSISignal::BullishDivergence => Some("BullishDivergence"),
            RSISignal::BearishDivergence => Some("BearishDivergence"),
            RSISignal::Neutral => None,
        }
    }
}

/// The index for an average gain and an average loss.
fn rsi_value(average_gain: Decimal, average_loss: Decimal) -> (r: Decimal)
    requires
        average_gain.units >= 0,
        average_loss.units >= 0,
    ensures
        r.units == rsi_units(average_gain.units as int, average_loss.units as int),
        0 <= r.units <= RSI_MAX,
{
    proof {
        lemma_rsi_units_bounds(average_gain.units as int, average_loss.units as int);
    }
    if average_loss.units <= 0 {
        Decimal { units: RSI_MAX }
    } else {
        let gain: u128 = average_gain.units as u128;
        let loss: u128 = average_loss.units as u128;
        assert(10_000_000_000 * gain <= 10_000_000_000 * 0x8000_0000_0000_0000)
            by (nonlinear_arith)
            requires
                0 <= gain <= 0x8000_0000_0000_0000,
        ;
        let quotient: u128 = ((RSI_MAX as u128) * gain) / (gain + loss);
        Decimal { units: quotient as i64 }
    }
}

/// The state that an index stands for.
pub fn classify_rsi(value: Decimal) -> (r: RSISignal)
    ensures
        r == rsi_state(value.units as int),
{
    if value.units < OVERSOLD_BELOW {
        RSISignal::Oversold
    } else if value.units > OVERBOUGHT_ABOVE {
        RSISignal::Overbought
    } else {
        RSISignal::Neutral
    }
}

/// The relative strength index of the closes of a series over a period.
pub fn calculate_rsi(candles: &[Candle], period: u32) -> (r: Option<RsiIndicator>)
    ensures
        match r {
            Some(rsi) => rsi.period == Some(period) && rsi_of(candles@, period as nat) == Some(
                rsi.value.units as int,
            ) && 0 <= rsi.value.units <= RSI_MAX,
            None => rsi_of(candles@, period as nat) is None,
        },
        r is Some <==> period >= 1 && candles@.len() >= period,
{
    if period == 0 {
        return None;
    }
    let mut gains = MovingAverage::new(Smoothing::Wilder, period);
    let mut losses = MovingAverage::new(Smoothing::Wilder, period);
    let ghost closes = closes_of(candles@);
    let ghost all_gains = gains_of(closes);
    let ghost all_losses = losses_of(closes);
    let mut i: usize = 0;
    assert(all_gains.take(0) =~= Seq::<int>::empty());
    assert(all_losses.take(0) =~= Seq::<int>::empty());
    while i < candles.len()
        invariant
            i <= candles.len(),
            closes == closes_of(candles@),
            all_gains == gains_of(closes),
            all_losses == losses_of(closes),
            gains.smoothing() == Smoothing::Wilder,
            losses.smoothing() == Smoothing::Wilder,
            gains.span() == period,
            losses.span() == period,
            gains.samples() == all_gains.take(i as int),
            losses.samples() == all_losses.take(i as int),
        decreases candles.len() - i,
    {
        let (gain, loss): (i64, i64) = if i == 0 {
            (0, 0)
        } else {
            let now: i128 = candles[i].close.units as i128;
            let before: i128 = candles[i - 1].close.units as i128;
            assert(closes[i as int] == candles@[i as int].close.units);
            assert(closes[i as int - 1] == candles@[i as int - 1].close.units);
            if now > before {
                (saturate(now - before), 0)
            } else if now < before {
                (0, saturate(before - now))
            } else {
                (0, 0)
            }
        };
        assert(gain == gain_at(closes, i as int));
        assert(loss == loss_at(closes, i as int));
        gains.update(Decimal { units: gain });
        losses.update(Decimal { units: loss });
        assert(all_gains.take(i as int + 1) =~= all_gains.take(i as int).push(
            all_gains[i as int],
        ));
        assert(all_losses.take(i as int + 1) =~= all_losses.take(i as int).push(
            all_losses[i as int],
        ));
        i = i + 1;
    }
    assert(all_gains.take(i as int) =~= all_gains);
    assert(all_losses.take(i as int) =~= all_losses);
    proof {
        assert(within_upto(all_gains, all_gains.len(), 0, i64::MAX as int));
        assert(within_upto(all_losses, all_losses.len(), 0, i64::MAX as int));
        lemma_average_within(
            Smoothing::Wilder,
            period as nat,
            all_gains,
            all_gains.len(),
            0,
            i64::MAX as int,
        );
        lemma_average_within(
            Smoothing::Wilder,
            period as nat,
            all_losses,
            all_losses.len(),
            0,
            i64::MAX as int,
        );
    }
    match (gains.value(), losses.value()) {
        (Some(gain), Some(loss)) => Some(
            RsiIndicator { value: rsi_value(gain, loss), period: Some(period) },
        ),
        _ => None,
    }
}

/// The relative strength index of the closes of a series over fourteen
/// closes.
pub fn calculate_rsi_default(candles: &[Candle]) -> (r: Option<RsiIndicator>)
    ensures
        match r {
            Some(rsi) => rsi.period == Some(14u32) && rsi_of(candles@, 14) == Some(
                rsi.value.units as int,
            ) && 0 <= rsi.value.units <= RSI_MAX,
            None => rsi_of(candles@, 14) is None,
        },
        r is Some <==> candles@.len() >= RSI_PERIOD,
{
    calculate_rsi(candles, 14)
}

} // verus!
