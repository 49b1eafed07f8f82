//! The middle Bollinger band: the simple average of the latest closes.

use crate::decimal::{trunc_div, Decimal};
use crate::indicators::smoothing::{lemma_trunc_div_within, prefix_sum};
use crate::models::indicators::{closes_of, Candle};
use vstd::prelude::*;

verus! {

/// The period of the Bollinger bands.
pub const BOLLINGER_PERIOD: u32 = 20;

/// The sum of the latest `count` of some values.
pub open spec fn latest_sum(values: Seq<int>, count: nat) -> int
    decreases count,
{
    if count == 0 || count > values.len() {
        0
    } else {
        latest_sum(values, (count - 1) as nat) + values[values.len() - count]
    }
}

/// The simple average of the latest `period` closes of a series, in units,
/// rounded toward zero. There is none for a series shorter than the period.
pub open spec fn latest_mean(candles: Seq<Candle>, period: nat) -> Option<int> {
    if period == 0 || candles.len() < period {
        None
    } else {
        Some(trunc_div(latest_sum(closes_of(candles), period), period as int))
    }
}

/// The sum of the latest values lies in as many times their range.
pub proof fn lemma_latest_sum_within(values: Seq<int>, count: nat, low: int, high: int)
    requires
        count <= values.len(),
        forall|i: int| 0 <= i < values.len() ==> low <= #[trigger] values[i] <= high,
    ensures
        count * low <= latest_sum(values, count) <= count * high,
    decreases count,
{
    if count > 0 {
        lemma_latest_sum_within(values, (count - 1) as nat, low, high);
        assert(low <= values[values.len() - count] <= high);
        assert(count * low == (count - 1) * low + low) by (nonlinear_arith);
        assert(count * high == (count - 1) * high + high) by (nonlinear_arith);
    } else {
        assert(0 * low == 0);
        assert(0 * high == 0);
    }
}

/// The middle Bollinger band of a series over a period: the simple average
/// of its latest `period` closes.
pub fn bollinger_middle(candles: &[Candle], period: u32) -> (r: Option<Decimal>)
    ensures
        match r {
            Some(v) => latest_mean(candles@, period as nat) == Some(v.units as int),
            None => latest_mean(candles@, period as nat) is None,
        },
        r is Some <==> period >= 1 && candles@.len() >= period,
{
    if period == 0 || candles.len() < period as usize {
        return None;
    }
    let ghost closes = closes_of(candles@);
    let len: usize = candles.len();
    let mut sum: i128 = 0;
    let mut k: usize = 0;
    while k < period as usize
        invariant
            k <= period,
            period <= len,
            len == candles@.len(),
            closes == closes_of(candles@),
            sum == latest_sum(closes, k as nat),
            -0x8000_0000_0000_0000 * k <= sum <= 0x8000_0000_0000_0000 * k,
        decreases period - k,
    {
        proof {
            assert(closes[len - (k + 1)] == candles@[len - (k + 1)].close.units);
            assert(0x8000_0000_0000_0000 * (k + 1) <= 0x8000_0000_0000_0000 * 0x1_0000_0000)
                by (nonlinear_arith)
                requires
                    k + 1 <= 0x1_0000_0000,
            ;
        }
        sum = sum + candles[len - (k + 1)].close.units as i128;
        k = k + 1;
    }
    proof {
        lemma_latest_sum_within(closes, period as nat, i64::MIN as int, i64::MAX as int);
        lemma_trunc_div_within(sum as int, period as int, i64::MIN as int, i64::MAX as int);
    }
    let p: i128 = period as i128;
    let mean: i128 = if sum >= 0 {
        sum / p
    } else {
        -((-sum) / p)
    };
    Some(Decimal { units: mean as i64 })
}

} // verus!
