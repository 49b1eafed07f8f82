//! The crossover of a fast and a slow exponential moving average.

use crate::decimal::Decimal;
use crate::indicators::smoothing::{average_after, MovingAverage, Smoothing};
use crate::models::indicators::{closes_of, Candle, EmaIndicator};
use vstd::prelude::*;

verus! {

/// The exponential moving average of the closes of a series over a period,
/// in units: the simple average of the first `period` closes, followed on
/// every further close with the weight `2 / (period + 1)`. There is none for
/// a series shorter than the period.
pub open spec fn ema_of(candles: Seq<Candle>, period: nat) -> Option<int> {
    average_after(Smoothing::Exponential, period, closes_of(candles), candles.len())
}

/// The sign of the difference of a fast and a slow average: one where the
/// fast one is above, minus one where it is below, zero where they meet.
pub open spec fn cross_sign(fast: int, slow: int) -> i32 {
    if fast > slow {
        1i32
    } else if fast < slow {
        -1i32
    } else {
        0i32
    }
}

/// The sign of the difference of the averages of a series over a fast and a
/// slow period, where the series has both.
pub open spec fn ema_cross_of(candles: Seq<Candle>, fast: nat, slow: nat) -> Option<i32> {
    match (ema_of(candles, fast), ema_of(candles, slow)) {
        (Some(f), Some(s)) => Some(cross_sign(f, s)),
        _ => None,
    }
}

/// The averages of a series over the first `n` of some periods, in order,
/// for those periods for which the series has an average.
pub open spec fn emas_of(candles: Seq<Candle>, periods: Seq<u32>, n: nat) -> Seq<EmaIndicator>
    decreases n,
{
    if n == 0 || n > periods.len() {
        Seq::empty()
    } else {
        let earlier = emas_of(candles, periods, (n - 1) as nat);
        match ema_of(candles, periods[n - 1] as nat) {
            Some(value) => earlier.push(
                EmaIndicator { value: Decimal { units: value as i64 }, period: periods[n - 1] },
            ),
            None => earlier,
        }
    }
}

/// The state of the crossover of a fast and a slow average, given the two
/// now and one candle before, and the price: a cross where the fast average
/// has just come above or below the slow one; else a strong trend where the
/// price lies beyond the fast average on the side away from the slow one;
/// else neutral.
pub open spec fn ema_trend_state(
    previous: Option<(int, int)>,
    fast: int,
    slow: int,
    price: int,
) -> EMATrendSignal {
    let was_at_or_below = match previous {
        Some(p) => p.0 <= p.1,
        None => false,
    };
    let was_at_or_above = match previous {
        Some(p) => p.0 >= p.1,
        None => false,
    };
    if was_at_or_below && fast > slow {
        EMATrendSignal::BullishCross
    } else if was_at_or_above && fast < slow {
        EMATrendSignal::BearishCross
    } else if fast > slow && price > fast {
        EMATrendSignal::StrongUptrend
    } else if fast < slow && price < fast {
        EMATrendSignal::StrongDowntrend
    } else {
        EMATrendSignal::Neutral
    }
}

/// The state of the crossover of a fast and a slow average.
pub fn classify_ema_trend(
    previous: Option<(Decimal, Decimal)>,
    fast: Decimal,
    slow: Decimal,
    price: Decimal,
) -> (r: EMATrendSignal)
    ensures
        r == ema_trend_state(
            match previous {
                Some(p) => Some((p.0.units as int, p.1.units as int)),
                None => None,
            },
            fast.units as int,
            slow.units as int,
            price.units as int,
        ),
{
    let (was_at_or_below, was_at_or_above) = match previous {
        Some(p) => (p.0.units <= p.1.units, p.0.units >= p.1.units),
        None => (false, false),
    };
    if was_at_or_below && fast.units > slow.units {
        EMATrendSignal::BullishCross
    } else if was_at_or_above && fast.units < slow.units {
        EMATrendSignal::BearishCross
    } else if fast.units > slow.units && price.units > fast.units {
        EMATrendSignal::StrongUptrend
    } else if fast.units < slow.units && price.units < fast.units {
        EMATrendSignal::StrongDowntrend
    } else {
        EMATrendSignal::Neutral
    }
}

/// The moving average of a kind over the closes of a series.
pub fn average_of_closes(kind: Smoothing, candles: &[Candle], period: u32) -> (r: Option<Decimal>)
    ensures
        match r {
            Some(v) => average_after(kind, period as nat, closes_of(candles@), candles@.len())
                == Some(v.units as int),
            None => average_after(kind, period as nat, closes_of(candles@), candles@.len())
                is None,
        },
        r is Some <==> period >= 1 && candles@.len() >= period,
{
    if period == 0 {
        return None;
    }
    let mut average = MovingAverage::new(kind, period);
    let mut i: usize = 0;
    let ghost closes = closes_of(candles@);
    assert(closes.take(0) =~= Seq::<int>::empty());
    while i < candles.len()
        invariant
            i <= candles.len(),
            closes == closes_of(candles@),
            average.smoothing() == kind,
            average.span() == period,
            average.samples() == closes.take(i as int),
        decreases candles.len() - i,
    {
        average.update(candles[i].close);
        assert(closes.take(i as int + 1) =~= closes.take(i as int).push(closes[i as int]));
        i = i + 1;
    }
    assert(closes.take(i as int) =~= closes);
    average.value()
}

/// The exponential moving average of the closes of a series over a period.
pub fn calculate_ema(candles: &[Candle], period: u32) -> (r: Option<EmaIndicator>)
    ensures
        match r {
            Some(ema) => ema.period == period && ema_of(candles@, period as nat) == Some(
                ema.value.units as int,
            ),
            None => ema_of(candles@, period as nat) is None,
        },
        r is Some <==> period >= 1 && candles@.len() >= period,
{
    match average_of_closes(Smoothing::Exponential, candles, period) {
        Some(value) => Some(EmaIndicator { value, period }),
        None => None,
    }
}

/// The exponential moving averages of a series over some periods, for the
/// periods that the series is long enough for.
pub fn calculate_emas(candles: &[Candle], periods: &[u32]) -> (r: Vec<EmaIndicator>)
    ensures
        r@ == emas_of(candles@, periods@, periods@.len()),
{
    let mut emas: Vec<EmaIndicator> = Vec::new();
    let mut i: usize = 0;
    while i < periods.len()
        invariant
            i <= periods.len(),
            emas@ == emas_of(candles@, periods@, i as nat),
        decreases periods.len() - i,
    {
        match calculate_ema(candles, periods[i]) {
            Some(ema) => {
                emas.push(ema);
            },
            None => {},
        }
        i = i + 1;
    }
    emas
}

/// Whether the fast average of a series lies above or below the slow one.
pub fn check_ema_cross(candles: &[Candle], fast_period: u32, slow_period: u32) -> (r: Option<i32>)
    ensures
        r == ema_cross_of(candles@, fast_period as nat, slow_period as nat),
{
    let fast = match calculate_ema(candles, fast_period) {
        Some(ema) => ema,
        None => {
            return None;
        },
    };
    let slow = match calculate_ema(candles, slow_period) {
        Some(ema) => ema,
        None => {
            return None;
        },
    };
    if fast.value.units > slow.value.units {
        Some(1)
    } else if fast.value.units < slow.value.units {
        Some(-1)
    } else {
        Some(0)
    }
}

/// The state that the EMA crossover reports.
#[derive(Clone, Copy, Debug, PartialEq, Eq, Structural)]
pub enum EMATrendSignal {
    BullishCross,
    BearishCross,
    StrongUptrend,
    StrongDowntrend,
    Neutral,
}

/// The name by which a condition refers to a state; the neutral state has
/// none.
pub open spec fn ema_signal_name(signal: EMATrendSignal) -> Option<Seq<char>> {
    match signal {
        EMATrendSignal::BullishCross => Some("BullishCross"@),
        EMATrendSignal::BearishCross => Some("BearishCross"@),
        EMATrendSignal::StrongUptrend => Some("StrongUptrend"@),
        EMATrendSignal::StrongDowntrend => Some("StrongDowntrend"@),
        EMATrendSignal::Neutral => None,
    }
}

impl EMATrendSignal {
    /// The name by which a condition refers to this state, if it has one.
    pub fn name(&self) -> (r: Option<&'static str>)
        ensures
            r matches Some(n) ==> ema_signal_name(*self) == Some(n@),
            r is None ==> ema_signal_name(*self) is None,
    {
        match self {
            EMATrendSignal::BullishCross => Some("BullishCross"),
            EMATrendSignal::BearishCross => Some("BearishCross"),
            EMATrendSignal::StrongUptrend => Some("StrongUptrend"),
            EMATrendSignal::StrongDowntrend => Some("StrongDowntrend"),
            EMATrendSignal::Neutral => None,
        }
    }
}

} // verus!
