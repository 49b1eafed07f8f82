//! The in-memory series of recent candles of one symbol and interval.

use crate::models::indicators::Candle;
use vstd::prelude::*;

verus! {

/// The number of candles that a buffer keeps; the oldest leave first.
pub const MAX_CANDLES: usize = 1000;

/// Whether the timestamps of a series strictly increase.
pub open spec fn strictly_increasing(s: Seq<Candle>) -> bool {
    forall|i: int, j: int| 0 <= i < j < s.len() ==> s[i].timestamp < s[j].timestamp
}

/// The number of candles at the head of a series that are older than
/// `timestamp`.
pub open spec fn older_run(s: Seq<Candle>, timestamp: i64) -> nat
    decreases s.len(),
{
    if s.len() > 0 && s[0].timestamp < timestamp {
        1 + older_run(s.skip(1), timestamp)
    } else {
        0
    }
}

/// A series with one more candle, before the buffer's limit is applied: the
/// candle takes the place of the one with its timestamp, or else stands
/// between the older and the newer ones.
pub open spec fn merged(s: Seq<Candle>, candle: Candle) -> Seq<Candle> {
    let k = older_run(s, candle.timestamp) as int;
    if k < s.len() && s[k].timestamp == candle.timestamp {
        s.update(k, candle)
    } else {
        s.insert(k, candle)
    }
}

/// The newest `limit` candles of a series.
pub open spec fn newest(s: Seq<Candle>, limit: nat) -> Seq<Candle> {
    if s.len() > limit {
        s.skip(s.len() - limit)
    } else {
        s
    }
}

/// The series that a buffer holds after a candle arrived: the merged series,
/// cut down to the newest `MAX_CANDLES`.
pub open spec fn upserted(s: Seq<Candle>, candle: Candle) -> Seq<Candle> {
    newest(merged(s, candle), MAX_CANDLES as nat)
}

/// `older_run` is `k` exactly when the first `k` candles are older than
/// `timestamp` and the next one, if any, is not.
pub proof fn lemma_older_run(s: Seq<Candle>, timestamp: i64, k: int)
    requires
        0 <= k <= s.len(),
        forall|i: int| 0 <= i < k ==> (#[trigger] s[i]).timestamp < timestamp,
        k < s.len() ==> s[k].timestamp >= timestamp,
    ensures
        older_run(s, timestamp) == k,
    decreases k,
{
    if k > 0 {
        let tail = s.skip(1);
        assert forall|i: int| 0 <= i < k - 1 implies (#[trigger] tail[i]).timestamp < timestamp by {
            assert(tail[i] == s[i + 1]);
        }
        lemma_older_run(tail, timestamp, k - 1);
    }
}

/// The candles counted by `older_run` are older than `timestamp`, and the
/// one behind them is not.
pub proof fn lemma_older_run_bounds(s: Seq<Candle>, timestamp: i64)
    ensures
        older_run(s, timestamp) <= s.len(),
        forall|i: int| 0 <= i < older_run(s, timestamp) ==> (#[trigger] s[i]).timestamp < timestamp,
        older_run(s, timestamp) < s.len() ==> s[older_run(s, timestamp) as int].timestamp
            >= timestamp,
    decreases s.len(),
{
    if s.len() > 0 && s[0].timestamp < timestamp {
        let tail = s.skip(1);
        lemma_older_run_bounds(tail, timestamp);
        assert forall|i: int| 0 <= i < older_run(s, timestamp) implies (#[trigger] s[i]).timestamp
            < timestamp by {
            if i > 0 {
                assert(tail[i - 1] == s[i]);
            }
        }
        if older_run(s, timestamp) < s.len() {
            assert(tail[older_run(tail, timestamp) as int] == s[older_run(s, timestamp) as int]);
        }
    }
}

/// Merging a candle into a series whose timestamps strictly increase gives
/// such a series again. It holds the candle, and beside it exactly the
/// candles of the series with another timestamp.
pub proof fn lemma_merged_increasing(s: Seq<Candle>, candle: Candle)
    requires
        strictly_increasing(s),
    ensures
        strictly_increasing(merged(s, candle)),
        merged(s, candle).contains(candle),
        forall|c: Candle|
            merged(s, candle).contains(c) <==> (c == candle || (s.contains(c) && c.timestamp
                != candle.timestamp)),
        s.len() <= merged(s, candle).len() <= s.len() + 1,
{
    lemma_older_run_bounds(s, candle.timestamp);
    let k = older_run(s, candle.timestamp) as int;
    let out = merged(s, candle);
    assert(out[k] == candle);
    if k < s.len() && s[k].timestamp == candle.timestamp {
        assert forall|i: int, j: int| 0 <= i < j < out.len() implies out[i].timestamp
            < out[j].timestamp by {
            assert(out[i].timestamp == s[i].timestamp);
            assert(out[j].timestamp == s[j].timestamp);
        }
        assert forall|c: Candle| out.contains(c) <==> (c == candle || (s.contains(c) && c.timestamp
            != candle.timestamp)) by {
            if out.contains(c) {
                let i = choose|i: int| 0 <= i < out.len() && out[i] == c;
                if i != k {
                    assert(s[i] == c);
                    assert(i < k ==> s[i].timestamp < s[k].timestamp);
                    assert(i > k ==> s[k].timestamp < s[i].timestamp);
                }
            }
            if s.contains(c) && c.timestamp != candle.timestamp {
                let i = choose|i: int| 0 <= i < s.len() && s[i] == c;
                assert(out[i] == c);
            }
        }
    } else {
        assert forall|i: int, j: int| 0 <= i < j < out.len() implies out[i].timestamp
            < out[j].timestamp by {
            if i < k && j > k {
                assert(out[i] == s[i]);
                assert(out[j] == s[j - 1]);
            } else if i < k && j == k {
                assert(out[i] == s[i]);
            } else if i < k && j < k {
                assert(out[i] == s[i]);
                assert(out[j] == s[j]);
            } else if i == k {
                assert(out[j] == s[j - 1]);
                assert(s[k].timestamp <= s[j - 1].timestamp);
            } else {
                assert(out[i] == s[i - 1]);
                assert(out[j] == s[j - 1]);
            }
        }
        assert forall|c: Candle| out.contains(c) <==> (c == candle || (s.contains(c) && c.timestamp
            != candle.timestamp)) by {
            if out.contains(c) {
                let i = choose|i: int| 0 <= i < out.len() && out[i] == c;
                if i < k {
                    assert(s[i] == c);
                } else if i > k {
                    assert(s[i - 1] == c);
                    assert(s[k].timestamp <= s[i - 1].timestamp);
                }
            }
            if s.contains(c) && c.timestamp != candle.timestamp {
                let i = choose|i: int| 0 <= i < s.len() && s[i] == c;
                if i < k {
                    assert(out[i] == c);
                } else {
                    assert(out[i + 1] == c);
                }
            }
        }
    }
}

/// The newest candles of a series whose timestamps strictly increase form
/// such a series.
pub proof fn lemma_newest_increasing(s: Seq<Candle>, limit: nat)
    requires
        strictly_increasing(s),
    ensures
        strictly_increasing(newest(s, limit)),
        newest(s, limit).len() <= limit,
        newest(s, limit).len() <= s.len(),
{
    if s.len() > limit {
        let out = s.skip(s.len() - limit);
        assert forall|i: int, j: int| 0 <= i < j < out.len() implies out[i].timestamp
            < out[j].timestamp by {
            assert(out[i] == s[i + s.len() - limit]);
            assert(out[j] == s[j + s.len() - limit]);
        }
    }
}

/// After a candle arrived the timestamps of the buffer's series still
/// strictly increase, and the series is within the limit. Two candles with
/// one timestamp leave one candle, the later one.
pub proof fn lemma_upserted_increasing(s: Seq<Candle>, candle: Candle)
    requires
        strictly_increasing(s),
    ensures
        strictly_increasing(upserted(s, candle)),
        upserted(s, candle).len() <= MAX_CANDLES,
        forall|c: Candle|
            upserted(s, candle).contains(c) && c.timestamp == candle.timestamp ==> c == candle,
{
    lemma_merged_increasing(s, candle);
    lemma_newest_increasing(merged(s, candle), MAX_CANDLES as nat);
    let m = merged(s, candle);
    let out = upserted(s, candle);
    assert forall|c: Candle| out.contains(c) && c.timestamp == candle.timestamp implies c
        == candle by {
        let i = choose|i: int| 0 <= i < out.len() && out[i] == c;
        if m.len() > MAX_CANDLES {
            assert(out[i] == m[i + m.len() - MAX_CANDLES]);
        }
        assert(m.contains(c));
    }
}

/// The series of recent candles of one symbol and interval, oldest first.
/// Its timestamps strictly increase and it holds at most `MAX_CANDLES`
/// candles.
pub struct CandleBuffer {
    candles: Vec<Candle>,
}

impl View for CandleBuffer {
    type V = Seq<Candle>;

    closed spec fn view(&self) -> Seq<Candle> {
        self.candles@
    }
}

impl CandleBuffer {
    #[verifier::type_invariant]
    spec fn well_formed(self) -> bool {
        strictly_increasing(self.candles@) && self.candles@.len() <= MAX_CANDLES
    }

    /// An empty buffer.
    pub fn new() -> (r: CandleBuffer)
        ensures
            r@ == Seq::<Candle>::empty(),
    {
        CandleBuffer { candles: Vec::new() }
    }

    /// The number of candles held.
    pub fn len(&self) -> (r: usize)
        ensures
            r == self@.len(),
            r <= MAX_CANDLES,
    {
        proof {
            use_type_invariant(self);
        }
        self.candles.len()
    }

    /// The candles held, oldest first.
    pub fn candles(&self) -> (r: &Vec<Candle>)
        ensures
            r@ == self@,
            strictly_increasing(r@),
            r@.len() <= MAX_CANDLES,
    {
        proof {
            use_type_invariant(self);
        }
        &self.candles
    }

    /// The newest `limit` candles, oldest first.
    pub fn latest(&self, limit: usize) -> (r: Vec<Candle>)
        ensures
            r@ == newest(self@, limit as nat),
            strictly_increasing(r@),
    {
        proof {
            use_type_invariant(self);
            lemma_newest_increasing(self@, limit as nat);
        }
        let len: usize = self.candles.len();
        let start: usize = if len > limit {
            len - limit
        } else {
            0
        };
        let mut out: Vec<Candle> = Vec::new();
        let mut i: usize = start;
        while i < len
            invariant
                start <= i <= len,
                len == self.candles@.len(),
                out@ == self.candles@.subrange(start as int, i as int),
            decreases len - i,
        {
            out.push(self.candles[i]);
            assert(out@ =~= self.candles@.subrange(start as int, i as int + 1));
            i = i + 1;
        }
        assert(out@ =~= newest(self@, limit as nat));
        out
    }

    /// Takes in a candle: it replaces the candle with its timestamp, or else
    /// is placed by its timestamp; beyond `MAX_CANDLES` the oldest leaves.
    pub fn upsert(&mut self, candle: Candle)
        ensures
            final(self)@ == upserted(old(self)@, candle),
            strictly_increasing(final(self)@),
            final(self)@.len() <= MAX_CANDLES,
    {
        proof {
            use_type_invariant(&*self);
            lemma_upserted_increasing(self@, candle);
            lemma_merged_increasing(self@, candle);
        }
        let ghost before = self@;
        let mut series: Vec<Candle> = Vec::new();
        core::mem::swap(&mut self.candles, &mut series);
        let mut k: usize = series.len();
        while k > 0 && series[k - 1].timestamp >= candle.timestamp
            invariant
                k <= series.len(),
                series@ == before,
                strictly_increasing(before),
                forall|i: int| k <= i < series.len() ==> (#[trigger] series@[i]).timestamp
                    >= candle.timestamp,
            decreases k,
        {
            k = k - 1;
        }
        proof {
            assert forall|i: int| 0 <= i < k implies (#[trigger] before[i]).timestamp
                < candle.timestamp by {
                assert(before[i].timestamp <= before[k - 1].timestamp);
            }
            lemma_older_run(before, candle.timestamp, k as int);
        }
        if k < series.len() && series[k].timestamp == candle.timestamp {
            series.set(k, candle);
        } else {
            series.insert(k, candle);
        }
        assert(series@ == merged(before, candle));
        if series.len() > MAX_CANDLES {
            let oldest = series.remove(0);
            assert(series@ =~= upserted(before, candle));
        }
        assert(series@ == upserted(before, candle));
        self.candles = series;
    }
}

} // verus!
