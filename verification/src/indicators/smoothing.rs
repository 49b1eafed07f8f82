//! Moving averages over a stream of values: the simple average of the first
//! samples, and the exponential and Wilder recursions that follow it.

use crate::decimal::{trunc_div, Decimal};
use vstd::prelude::*;

verus! {

/// The two recursions by which an average follows its samples.
#[derive(Clone, Copy, Debug, PartialEq, Eq, Structural)]
pub enum Smoothing {
    /// A new sample counts `2 / (period + 1)`.
    Exponential,
    /// A new sample counts `1 / period`.
    Wilder,
}

/// The sum of the first `n` of some values.
pub open spec fn prefix_sum(values: Seq<int>, n: nat) -> int
    decreases n,
{
    if n == 0 || n > values.len() {
        0
    } else {
        prefix_sum(values, (n - 1) as nat) + values[n - 1]
    }
}

/// The average after one more sample, rounded toward zero.
pub open spec fn smoothed(kind: Smoothing, period: nat, average: int, sample: int) -> int {
    match kind {
        Smoothing::Exponential => trunc_div(
            2 * sample + (period - 1) * average,
            (period + 1) as int,
        ),
        Smoothing::Wilder => trunc_div(sample + (period - 1) * average, period as int),
    }
}

/// The average of a period after the first `n` of some values: none before
/// `period` values, then the simple average of the first `period` values,
/// then the recursion on every further value.
pub open spec fn average_after(kind: Smoothing, period: nat, values: Seq<int>, n: nat) -> Option<
    int,
>
    decreases n,
{
    if period == 0 || n < period || n > values.len() {
        None
    } else if n == period {
        Some(trunc_div(prefix_sum(values, period), period as int))
    } else {
        match average_after(kind, period, values, (n - 1) as nat) {
            Some(average) => Some(smoothed(kind, period, average, values[n - 1])),
            None => None,
        }
    }
}

/// A number brought into the representable range: below it the smallest,
/// above it the largest representable number.
pub open spec fn saturated(x: int) -> int {
    if x < i64::MIN {
        i64::MIN as int
    } else if x > i64::MAX {
        i64::MAX as int
    } else {
        x
    }
}

/// A number brought into the representable range.
pub fn saturate(x: i128) -> (r: i64)
    ensures
        r == saturated(x as int),
{
    if x < -0x8000_0000_0000_0000i128 {
        i64::MIN
    } else if x > 0x7fff_ffff_ffff_ffffi128 {
        i64::MAX
    } else {
        x as i64
    }
}

/// Whether the first `n` of some values lie between `low` and `high`.
pub open spec fn within_upto(values: Seq<int>, n: nat, low: int, high: int) -> bool {
    forall|i: int| 0 <= i < n && i < values.len() ==> low <= #[trigger] values[i] <= high
}

/// A quotient rounded toward zero lies in a range around zero where the
/// dividend lies in as many times that range as the divisor says.
pub proof fn lemma_trunc_div_within(total: int, divisor: int, low: int, high: int)
    requires
        divisor > 0,
        low <= 0 <= high,
        divisor * low <= total <= divisor * high,
    ensures
        low <= trunc_div(total, divisor) <= high,
{
    if total >= 0 {
        assert(0 <= total / divisor <= high) by (nonlinear_arith)
            requires
                0 <= total <= divisor * high,
                divisor > 0,
        ;
    } else {
        let m = -total;
        assert(divisor * (-low) == -(divisor * low)) by (nonlinear_arith);
        assert(0 <= m / divisor <= -low) by (nonlinear_arith)
            requires
                0 <= m <= divisor * (-low),
                divisor > 0,
        ;
    }
}

/// The sum of values in a range lies in as many times the range.
pub proof fn lemma_prefix_sum_within(values: Seq<int>, n: nat, low: int, high: int)
    requires
        n <= values.len(),
        within_upto(values, n, low, high),
    ensures
        n * low <= prefix_sum(values, n) <= n * high,
    decreases n,
{
    if n > 0 {
        lemma_prefix_sum_within(values, (n - 1) as nat, low, high);
        assert(low <= values[n - 1] <= high);
        assert(n * low == (n - 1) * low + low) by (nonlinear_arith);
        assert(n * high == (n - 1) * high + high) by (nonlinear_arith);
    } else {
        assert(0 * low == 0);
        assert(0 * high == 0);
    }
}

/// An average after one more sample lies in the range around zero in which
/// the average before and the sample lie.
pub proof fn lemma_smoothed_within(
    kind: Smoothing,
    period: nat,
    average: int,
    sample: int,
    low: int,
    high: int,
)
    requires
        period >= 1,
        low <= 0 <= high,
        low <= average <= high,
        low <= sample <= high,
    ensures
        low <= smoothed(kind, period, average, sample) <= high,
{
    let p = period as int;
    assert((p - 1) * low <= (p - 1) * average <= (p - 1) * high) by (nonlinear_arith)
        requires
            p >= 1,
            low <= average <= high,
    ;
    match kind {
        Smoothing::Exponential => {
            let total = 2 * sample + (p - 1) * average;
            assert((p + 1) * low == 2 * low + (p - 1) * low) by (nonlinear_arith);
            assert((p + 1) * high == 2 * high + (p - 1) * high) by (nonlinear_arith);
            lemma_trunc_div_within(total, p + 1, low, high);
        },
        Smoothing::Wilder => {
            let total = sample + (p - 1) * average;
            assert(p * low == low + (p - 1) * low) by (nonlinear_arith);
            assert(p * high == high + (p - 1) * high) by (nonlinear_arith);
            lemma_trunc_div_within(total, p, low, high);
        },
    }
}

/// An average of values in a range around zero lies in that range. There is
/// an average exactly from `period` values on.
pub proof fn lemma_average_within(
    kind: Smoothing,
    period: nat,
    values: Seq<int>,
    n: nat,
    low: int,
    high: int,
)
    requires
        period >= 1,
        n <= values.len(),
        within_upto(values, n, low, high),
        low <= 0 <= high,
    ensures
        average_after(kind, period, values, n) is Some <==> n >= period,
        average_after(kind, period, values, n) matches Some(average) ==> low <= average <= high,
    decreases n,
{
    if n == period {
        lemma_prefix_sum_within(values, period, low, high);
        lemma_trunc_div_within(prefix_sum(values, period), period as int, low, high);
    } else if n > period {
        lemma_average_within(kind, period, values, (n - 1) as nat, low, high);
        let before = average_after(kind, period, values, (n - 1) as nat)->0;
        assert(low <= values[n - 1] <= high);
        lemma_smoothed_within(kind, period, before, values[n - 1], low, high);
    }
}

/// An average that follows a stream of samples. `history` is what it has
/// consumed so far.
#[derive(Clone, Copy)]
pub struct MovingAverage {
    kind: Smoothing,
    period: u32,
    count: u64,
    sum: i128,
    value: i64,
    history: Ghost<Seq<int>>,
}

impl MovingAverage {
    #[verifier::type_invariant]
    spec fn well_formed(self) -> bool {
        &&& self.period >= 1
        &&& self.history@.len() < u64::MAX ==> self.count == self.history@.len()
        &&& self.history@.len() >= u64::MAX ==> self.count == u64::MAX
        &&& within_upto(self.history@, self.history@.len(), i64::MIN as int, i64::MAX as int)
        &&& self.count < self.period ==> self.sum == prefix_sum(self.history@, self.count as nat)
        &&& self.count >= self.period ==> average_after(
            self.kind,
            self.period as nat,
            self.history@,
            self.history@.len(),
        ) == Some(self.value as int)
    }

    /// The recursion of this average.
    pub closed spec fn smoothing(&self) -> Smoothing {
        self.kind
    }

    /// The period of this average.
    pub closed spec fn span(&self) -> nat {
        self.period as nat
    }

    /// The samples consumed so far, in units.
    pub closed spec fn samples(&self) -> Seq<int> {
        self.history@
    }

    /// The average of the samples consumed so far.
    pub open spec fn current(&self) -> Option<int> {
        average_after(self.smoothing(), self.span(), self.samples(), self.samples().len())
    }

    /// An average over `period` samples that has consumed nothing. A period
    /// of zero counts as one.
    pub fn new(kind: Smoothing, period: u32) -> (r: MovingAverage)
        ensures
            r.smoothing() == kind,
            r.span() == if period == 0 {
                1nat
            } else {
                period as nat
            },
            r.samples() == Seq::<int>::empty(),
    {
        let period: u32 = if period == 0 {
            1
        } else {
            period
        };
        MovingAverage { kind, period, count: 0, sum: 0, value: 0, history: Ghost(Seq::empty()) }
    }

    /// The average of the samples consumed so far: none before `period`
    /// samples.
    pub fn value(&self) -> (r: Option<Decimal>)
        ensures
            match r {
                Some(v) => self.current() == Some(v.units as int),
                None => self.current() is None,
            },
            r is Some <==> self.samples().len() >= self.span(),
    {
        proof {
            use_type_invariant(self);
            lemma_average_within(
                self.kind,
                self.period as nat,
                self.history@,
                self.history@.len(),
                i64::MIN as int,
                i64::MAX as int,
            );
        }
        if self.count >= self.period as u64 {
            Some(Decimal { units: self.value })
        } else {
            None
        }
    }

    /// Consumes a sample and returns the average after it.
    pub fn update(&mut self, sample: Decimal) -> (r: Option<Decimal>)
        ensures
            final(self).smoothing() == old(self).smoothing(),
            final(self).span() == old(self).span(),
            final(self).samples() == old(self).samples().push(sample.units as int),
            match r {
                Some(v) => final(self).current() == Some(v.units as int),
                None => final(self).current() is None,
            },
            r is Some <==> final(self).samples().len() >= final(self).span(),
    {
        proof {
            use_type_invariant(&*self);
        }
        let ghost before = self.history@;
        let ghost after = before.push(sample.units as int);
        let kind = self.kind;
        let period = self.period;
        let p: i128 = period as i128;
        let x: i128 = sample.units as i128;
        let mut count = self.count;
        let mut sum = self.sum;
        let mut value = self.value;
        proof {
            assert(within_upto(after, after.len(), i64::MIN as int, i64::MAX as int)) by {
                assert forall|i: int| 0 <= i < after.len() implies i64::MIN
                    <= #[trigger] after[i] <= i64::MAX by {
                    if i < before.len() {
                        assert(after[i] == before[i]);
                    }
                }
            }
            lemma_average_within(
                kind,
                period as nat,
                after,
                after.len(),
                i64::MIN as int,
                i64::MAX as int,
            );
            lemma_average_within(
                kind,
                period as nat,
                before,
                before.len(),
                i64::MIN as int,
                i64::MAX as int,
            );
            lemma_average_extends(kind, period as nat, before, sample.units as int, before.len());
            lemma_prefix_sum_extends(before, sample.units as int, before.len());
            if count < period {
                lemma_prefix_sum_within(before, count as nat, i64::MIN as int, i64::MAX as int);
                assert(count * 0x8000_0000_0000_0000 <= 0xffff_ffff * 0x8000_0000_0000_0000)
                    by (nonlinear_arith)
                    requires
                        0 <= count <= 0xffff_ffff,
                ;
                assert(count * (-0x8000_0000_0000_0000) >= 0xffff_ffff * (-0x8000_0000_0000_0000))
                    by (nonlinear_arith)
                    requires
                        0 <= count <= 0xffff_ffff,
                ;
            }
        }
        if count < period as u64 {
            sum = sum + x;
            count = count + 1;
            if count == period as u64 {
                let seed: i128 = if sum >= 0 {
                    sum / p
                } else {
                    -((-sum) / p)
                };
                assert(seed == trunc_div(prefix_sum(after, period as nat), period as int));
                assert(average_after(kind, period as nat, after, after.len()) == Some(
                    seed as int,
                ));
                value = seed as i64;
            }
        } else {
            let previous: i128 = value as i128;
            assert(-0x1_0000_0000 * 0x8000_0000_0000_0000 <= (p - 1) * previous <= 0x1_0000_0000
                * 0x8000_0000_0000_0000) by (nonlinear_arith)
                requires
                    1 <= p <= 0xffff_ffff,
                    -0x8000_0000_0000_0000 <= previous <= 0x8000_0000_0000_0000,
            ;
            let (total, divisor): (i128, i128) = match kind {
                Smoothing::Exponential => (2 * x + (p - 1) * previous, p + 1),
                Smoothing::Wilder => (x + (p - 1) * previous, p),
            };
            let next: i128 = if total >= 0 {
                total / divisor
            } else {
                -((-total) / divisor)
            };
            assert(next == smoothed(kind, period as nat, previous as int, sample.units as int));
            assert(average_after(kind, period as nat, after, after.len()) == Some(next as int));
            value = next as i64;
            if count < u64::MAX {
                count = count + 1;
            }
        }
        let r = if count >= period as u64 {
            Some(Decimal { units: value })
        } else {
            None
        };
        *self = MovingAverage { kind, period, count, sum, value, history: Ghost(after) };
        r
    }
}

/// The sum of the first values of a sequence is that of the first values of
/// any longer prefix of it.
pub proof fn lemma_prefix_sum_prefix(values: Seq<int>, m: int, n: nat)
    requires
        n <= m <= values.len(),
    ensures
        prefix_sum(values.take(m), n) == prefix_sum(values, n),
    decreases n,
{
    if n > 0 {
        lemma_prefix_sum_prefix(values, m, (n - 1) as nat);
        assert(values.take(m)[n - 1] == values[n - 1]);
    }
}

/// The average after the first values of a sequence is that after the first
/// values of any longer prefix of it.
pub proof fn lemma_average_prefix(kind: Smoothing, period: nat, values: Seq<int>, m: int, n: nat)
    requires
        n <= m <= values.len(),
    ensures
        average_after(kind, period, values.take(m), n) == average_after(kind, period, values, n),
    decreases n,
{
    if period > 0 && n >= period {
        if n == period {
            lemma_prefix_sum_prefix(values, m, period);
        } else {
            lemma_average_prefix(kind, period, values, m, (n - 1) as nat);
            assert(values.take(m)[n - 1] == values[n - 1]);
        }
    }
}

/// The sum of the first values of a sequence is the same with one more value
/// behind them.
pub proof fn lemma_prefix_sum_extends(values: Seq<int>, more: int, n: nat)
    requires
        n <= values.len(),
    ensures
        prefix_sum(values.push(more), n) == prefix_sum(values, n),
        prefix_sum(values.push(more), n + 1) == prefix_sum(values.push(more), n) + if n
            == values.len() {
            more
        } else {
            values[n as int]
        },
    decreases n,
{
    if n > 0 {
        lemma_prefix_sum_extends(values, more, (n - 1) as nat);
        assert(values.push(more)[n - 1] == values[n - 1]);
    }
}

/// The average of the first values of a sequence is the same with one more
/// value behind them.
pub proof fn lemma_average_extends(
    kind: Smoothing,
    period: nat,
    values: Seq<int>,
    more: int,
    n: nat,
)
    requires
        n <= values.len(),
    ensures
        average_after(kind, period, values.push(more), n) == average_after(
            kind,
            period,
            values,
            n,
        ),
    decreases n,
{
    if period > 0 && n >= period {
        if n == period {
            lemma_prefix_sum_extends(values, more, period);
        } else {
            lemma_average_extends(kind, period, values, more, (n - 1) as nat);
            assert(values.push(more)[n - 1] == values[n - 1]);
        }
    }
}

} // verus!
