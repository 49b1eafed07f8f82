//! Moving average convergence divergence.

use crate::decimal::Decimal;
use crate::indicators::smoothing::{
    average_after, lemma_average_prefix, lemma_average_within, saturate, saturated, within_upto,
    MovingAverage, Smoothing,
};
use crate::models::indicators::{closes_of, Candle, MacdIndicator};
use vstd::prelude::*;

verus! {

/// The larger of two periods.
pub open spec fn longer(a: nat, b: nat) -> nat {
    if a >= b {
        a
    } else {
        b
    }
}

/// The MACD line after the first `n` values: the fast average less the slow
/// one, where both exist.
pub open spec fn macd_line_at(values: Seq<int>, fast: nat, slow: nat, n: nat) -> Option<int> {
    match (
        average_after(Smoothing::Exponential, fast, values, n),
        average_after(Smoothing::Exponential, slow, values, n),
    ) {
        (Some(f), Some(s)) => Some(saturated(f - s)),
        _ => None,
    }
}

/// The values that the MACD line has taken after each of the first `n`
/// values, in order.
pub open spec fn macd_line(values: Seq<int>, fast: nat, slow: nat, n: nat) -> Seq<int>
    decreases n,
{
    if n == 0 {
        Seq::empty()
    } else {
        match macd_line_at(values, fast, slow, n) {
            Some(v) => macd_line(values, fast, slow, (n - 1) as nat).push(v),
            None => macd_line(values, fast, slow, (n - 1) as nat),
        }
    }
}

/// The signal line after the first `n` values: the exponential average of
/// the values of the MACD line.
pub open spec fn macd_signal_at(
    values: Seq<int>,
    fast: nat,
    slow: nat,
    signal: nat,
    n: nat,
) -> Option<int> {
    average_after(
        Smoothing::Exponential,
        signal,
        macd_line(values, fast, slow, n),
        macd_line(values, fast, slow, n).len(),
    )
}

/// Whether a series is long enough for the MACD of three periods: it has as
/// many candles as the longer of the fast and the slow period and the signal
/// period together.
pub open spec fn macd_ready(count: nat, fast: nat, slow: nat, signal: nat) -> bool {
    fast >= 1 && slow >= 1 && signal >= 1 && count >= longer(fast, slow) + signal
}

/// The length of the MACD line after `n` values.
pub proof fn lemma_macd_line_len(values: Seq<int>, fast: nat, slow: nat, n: nat)
    requires
        fast >= 1,
        slow >= 1,
        n <= values.len(),
        within_upto(values, values.len(), i64::MIN as int, i64::MAX as int),
    ensures
        macd_line(values, fast, slow, n).len() == if n < longer(fast, slow) {
            0
        } else {
            n - longer(fast, slow) + 1
        },
        within_upto(
            macd_line(values, fast, slow, n),
            macd_line(values, fast, slow, n).len(),
            i64::MIN as int,
            i64::MAX as int,
        ),
    decreases n,
{
    if n > 0 {
        lemma_macd_line_len(values, fast, slow, (n - 1) as nat);
        lemma_average_within(
            Smoothing::Exponential,
            fast,
            values,
            n,
            i64::MIN as int,
            i64::MAX as int,
        );
        lemma_average_within(
            Smoothing::Exponential,
            slow,
            values,
            n,
            i64::MIN as int,
            i64::MAX as int,
        );
        let earlier = macd_line(values, fast, slow, (n - 1) as nat);
        let line = macd_line(values, fast, slow, n);
        assert forall|i: int| 0 <= i < line.len() implies i64::MIN <= #[trigger] line[i]
            <= i64::MAX by {
            if i < earlier.len() {
                assert(line[i] == earlier[i]);
            }
        }
    }
}

/// The state that the MACD reports.
#[derive(Clone, Copy, Debug, PartialEq, Eq, Structural)]
pub enum MACDSignal {
    BullishCross,
    BearishCross,
    BullishMomentum,
    BearishMomentum,
    Neutral,
}

/// The name by which a condition refers to a state; the neutral state has
/// none.
pub open spec fn macd_signal_name(signal: MACDSignal) -> Option<Seq<char>> {
    match signal {
        MACDSignal::BullishCross => Some("BullishCross"@),
        MACDSignal::BearishCross => Some("BearishCross"@),
        MACDSignal::BullishMomentum => Some("BullishMomentum"@),
        MACDSignal::BearishMomentum => Some("BearishMomentum"@),
        MACDSignal::Neutral => None,
    }
}

impl MACDSignal {
    /// The name by which a condition refers to this state, if it has one.
    pub fn name(&self) -> (r: Option<&'static str>)
        ensures
            r matches Some(n) ==> macd_signal_name(*self) == Some(n@),
            r is None ==> macd_signal_name(*self) is None,
    {
        match self {
            MACDSignal::BullishCross => Some("BullishCross"),
            MACDSignal::BearishCross => Some("BearishCross"),
            MACDSignal::BullishMomentum => Some("BullishMomentum"),
            MACDSignal::BearishMomentum => Some("BearishMomentum"),
            MACDSignal::Neutral => None,
        }
    }
}

/// The state of the MACD, given the line and its average now and one candle
/// before: a cross where the line has just come above or below its average,
/// else momentum on the side of the average on which the line lies, else
/// neutral.
pub open spec fn macd_state(previous: Option<(int, int)>, line: int, average: int) -> MACDSignal {
    let was_at_or_below = match previous {
        Some(p) => p.0 <= p.1,
        None => false,
    };
    let was_at_or_above = match previous {
        Some(p) => p.0 >= p.1,
        None => false,
    };
    if was_at_or_below && line > average {
        MACDSignal::BullishCross
    } else if was_at_or_above && line < average {
        MACDSignal::BearishCross
    } else if line > average {
        MACDSignal::BullishMomentum
    } else if line < average {
        MACDSignal::BearishMomentum
    } else {
        MACDSignal::Neutral
    }
}

/// The state of the MACD, given its values now and one candle before.
pub fn classify_macd(previous: Option<MacdIndicator>, current: MacdIndicator) -> (r: MACDSignal)
    ensures
        r == macd_state(
            match previous {
                Some(p) => Some((p.macd.units as int, p.signal.units as int)),
                None => None,
            },
            current.macd.units as int,
            current.signal.units as int,
        ),
{
    let line = current.macd.units;
    let average = current.signal.units;
    let (was_at_or_below, was_at_or_above) = match previous {
        Some(p) => (p.macd.units <= p.signal.units, p.macd.units >= p.signal.units),
        None => (false, false),
    };
    if was_at_or_below && line > average {
        MACDSignal::BullishCross
    } else if was_at_or_above && line < average {
        MACDSignal::BearishCross
    } else if line > average {
        MACDSignal::BullishMomentum
    } else if line < average {
        MACDSignal::BearishMomentum
    } else {
        MACDSignal::Neutral
    }
}

/// The MACD of the closes of a series: the fast exponential average less
/// the slow one, the exponential average of that difference over the signal
/// period, and the difference less its average.
pub fn calculate_macd(
    candles: &[Candle],
    fast_period: u32,
    slow_period: u32,
    signal_period: u32,
) -> (r: Option<MacdIndicator>)
    ensures
        r is Some <==> macd_ready(
            candles@.len(),
            fast_period as nat,
            slow_period as nat,
            signal_period as nat,
        ),
        r matches Some(macd) ==> {
            &&& macd.period == Some((fast_period, slow_period, signal_period))
            &&& macd_line_at(
                closes_of(candles@),
                fast_period as nat,
                slow_period as nat,
                candles@.len(),
            ) == Some(macd.macd.units as int)
            &&& macd_signal_at(
                closes_of(candles@),
                fast_period as nat,
                slow_period as nat,
                signal_period as nat,
                candles@.len(),
            ) == Some(macd.signal.units as int)
            &&& macd.histogram.units == saturated(macd.macd.units - macd.signal.units)
        },
{
    if fast_period == 0 || slow_period == 0 || signal_period == 0 {
        return None;
    }
    let start: u32 = if fast_period >= slow_period {
        fast_period
    } else {
        slow_period
    };
    if (candles.len() as u128) < start as u128 + signal_period as u128 {
        return None;
    }
    let ghost closes = closes_of(candles@);
    let ghost fp = fast_period as nat;
    let ghost sp = slow_period as nat;
    let mut fast = MovingAverage::new(Smoothing::Exponential, fast_period);
    let mut slow = MovingAverage::new(Smoothing::Exponential, slow_period);
    let mut signal = MovingAverage::new(Smoothing::Exponential, signal_period);
    let mut line: Option<Decimal> = None;
    let mut i: usize = 0;
    assert(closes.take(0) =~= Seq::<int>::empty());
    while i < candles.len()
        invariant
            i <= candles.len(),
            closes == closes_of(candles@),
            fp == fast_period,
            sp == slow_period,
            fast.smoothing() == Smoothing::Exponential,
            slow.smoothing() == Smoothing::Exponential,
            signal.smoothing() == Smoothing::Exponential,
            fast.span() == fast_period,
            slow.span() == slow_period,
            signal.span() == signal_period,
            fast.samples() == closes.take(i as int),
            slow.samples() == closes.take(i as int),
            signal.samples() == macd_line(closes, fp, sp, i as nat),
            match line {
                Some(v) => macd_line_at(closes, fp, sp, i as nat) == Some(v.units as int),
                None => macd_line_at(closes, fp, sp, i as nat) is None,
            },
        decreases candles.len() - i,
    {
        let f = fast.update(candles[i].close);
        let s = slow.update(candles[i].close);
        proof {
            assert(closes.take(i as int + 1) =~= closes.take(i as int).push(closes[i as int]));
            lemma_average_prefix(
                Smoothing::Exponential,
                fp,
                closes,
                i as int + 1,
                (i + 1) as nat,
            );
            lemma_average_prefix(
                Smoothing::Exponential,
                sp,
                closes,
                i as int + 1,
                (i + 1) as nat,
            );
        }
        line =
        match (f, s) {
            (Some(fv), Some(sv)) => {
                let value = Decimal { units: saturate(fv.units as i128 - sv.units as i128) };
                signal.update(value);
                Some(value)
            },
            _ => None,
        };
        i = i + 1;
    }
    proof {
        assert(within_upto(closes, closes.len(), i64::MIN as int, i64::MAX as int));
        lemma_macd_line_len(closes, fp, sp, candles@.len());
        lemma_average_within(
            Smoothing::Exponential,
            fp,
            closes,
            closes.len(),
            i64::MIN as int,
            i64::MAX as int,
        );
        lemma_average_within(
            Smoothing::Exponential,
            sp,
            closes,
            closes.len(),
            i64::MIN as int,
            i64::MAX as int,
        );
        assert(longer(fp, sp) == start);
        assert(line is Some);
        assert(signal.samples().len() >= signal_period);
    }
    match (line, signal.value()) {
        (Some(macd), Some(average)) => Some(
            MacdIndicator {
                macd,
                signal: average,
                histogram: Decimal {
                    units: saturate(macd.units as i128 - average.units as i128),
                },
                period: Some((fast_period, slow_period, signal_period)),
            },
        ),
        _ => None,
    }
}

/// The MACD of the closes of a series for the periods twelve, twenty-six
/// and nine.
pub fn calculate_macd_default(candles: &[Candle]) -> (r: Option<MacdIndicator>)
    ensures
        r is Some <==> candles@.len() >= 35,
        r matches Some(macd) ==> {
            &&& macd.period == Some((12u32, 26u32, 9u32))
            &&& macd_line_at(closes_of(candles@), 12, 26, candles@.len()) == Some(
                macd.macd.units as int,
            )
            &&& macd_signal_at(closes_of(candles@), 12, 26, 9, candles@.len()) == Some(
                macd.signal.units as int,
            )
            &&& macd.histogram.units == saturated(macd.macd.units - macd.signal.units)
        },
{
    calculate_macd(candles, 12, 26, 9)
}

} // verus!
