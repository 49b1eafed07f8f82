//! What the three job handlers decide: whether fetched candles go on to
//! evaluation, which signals go on to be stored, and under which identity a
//! signal is stored.

use crate::jobs::types::{EvaluateSignalJob, FetchCandlesJob, StoreSignalJob};
use crate::models::indicators::Candle;
use crate::models::strategy::Strategy;
use crate::services::hyperliquid::buffer::newest;
use crate::signals::engine::SignalEngine;
use crate::strategies::evaluator::{signal_basis, signal_describes, IndicatorValues, MIN_CANDLES};
use vstd::prelude::*;

verus! {

/// The number of most recent candles that an evaluation reads.
pub const FETCH_LIMIT: usize = 250;

/// Why fetched candles do not go on to evaluation. Both are worth a retry:
/// the feed may deliver more candles later.
#[derive(Clone, Copy, Debug, PartialEq, Eq, Structural)]
pub enum FetchError {
    /// There are no candles yet.
    NoCandles,
    /// There are fewer candles than an evaluation needs.
    NotEnoughCandles { have: usize, need: usize },
}

/// The identity under which a signal is stored: storing a signal with an
/// identity that is stored already stores nothing new.
#[derive(Clone, Copy, Debug, PartialEq, Eq, Structural)]
pub struct SignalIdentity {
    pub strategy_id: i64,
    pub timestamp_ms: i64,
}

impl FetchError {
    /// Whether the job is to be tried again.
    pub fn is_retryable(&self) -> (r: bool)
        ensures
            r,
    {
        true
    }
}

/// The strategy id under which a signal is stored: zero for a strategy
/// without one.
pub open spec fn stored_strategy_id(strategy: Strategy) -> i64 {
    match strategy.id {
        Some(id) => id,
        None => 0,
    }
}

/// Whether `jobs` are the store jobs of evaluating the first `n` of some
/// strategies: one job for each strategy that yields a signal, in the order
/// of the strategies, with the symbol of the evaluation job, the strategy's
/// id and the strategy's signal.
pub open spec fn store_jobs_match(
    jobs: Seq<StoreSignalJob>,
    job: EvaluateSignalJob,
    strategies: Seq<Strategy>,
    n: nat,
    values: IndicatorValues,
    now_ms: i64,
) -> bool
    decreases n,
{
    if n == 0 || n > strategies.len() {
        jobs.len() == 0
    } else {
        let strategy = strategies[n - 1];
        match signal_basis(strategy, job.candles@.len(), values) {
            None => store_jobs_match(jobs, job, strategies, (n - 1) as nat, values, now_ms),
            Some(results) => {
                &&& jobs.len() > 0
                &&& store_jobs_match(
                    jobs.drop_last(),
                    job,
                    strategies,
                    (n - 1) as nat,
                    values,
                    now_ms,
                )
                &&& jobs.last().symbol == job.symbol
                &&& jobs.last().strategy_id == stored_strategy_id(strategy)
                &&& signal_describes(
                    jobs.last().signal,
                    strategy,
                    job.candles@,
                    results,
                    values,
                    now_ms,
                )
            },
        }
    }
}

/// Decides what follows the fetching of candles for a job: with at least
/// `MIN_CANDLES` candles, the evaluation of the newest `FETCH_LIMIT` of
/// them; else an error.
pub fn plan_evaluation(job: &FetchCandlesJob, candles: Vec<Candle>) -> (r: Result<
    EvaluateSignalJob,
    FetchError,
>)
    ensures
        candles@.len() == 0 ==> r == Err::<EvaluateSignalJob, FetchError>(FetchError::NoCandles),
        0 < candles@.len() < MIN_CANDLES ==> r == Err::<EvaluateSignalJob, FetchError>(
            FetchError::NotEnoughCandles { have: candles.len(), need: MIN_CANDLES },
        ),
        candles@.len() >= MIN_CANDLES ==> (r matches Ok(next) && next.symbol == job.symbol
            && next.candles@ == newest(candles@, FETCH_LIMIT as nat)),
{
    let len: usize = candles.len();
    if len == 0 {
        return Err(FetchError::NoCandles);
    }
    if len < MIN_CANDLES {
        return Err(FetchError::NotEnoughCandles { have: len, need: MIN_CANDLES });
    }
    if len <= FETCH_LIMIT {
        return Ok(EvaluateSignalJob { symbol: job.symbol.clone(), candles });
    }
    let start: usize = len - FETCH_LIMIT;
    let mut latest: Vec<Candle> = Vec::new();
    let mut i: usize = start;
    while i < len
        invariant
            start <= i <= len,
            len == candles@.len(),
            latest@ == candles@.subrange(start as int, i as int),
        decreases len - i,
    {
        latest.push(candles[i]);
        assert(latest@ =~= candles@.subrange(start as int, i as int + 1));
        i = i + 1;
    }
    assert(latest@ =~= newest(candles@, FETCH_LIMIT as nat));
    Ok(EvaluateSignalJob { symbol: job.symbol.clone(), candles: latest })
}

/// Evaluates every strategy on the candles of a job and the indicator
/// values computed from them, and returns the store jobs to enqueue: one for
/// each strategy that yields a signal. A strategy that yields none does not
/// stand in the way of the others.
pub fn plan_store_jobs(
    job: &EvaluateSignalJob,
    strategies: &Vec<Strategy>,
    values: &IndicatorValues,
    now_ms: i64,
) -> (r: Vec<StoreSignalJob>)
    ensures
        store_jobs_match(r@, *job, strategies@, strategies@.len(), *values, now_ms),
        r@.len() <= strategies@.len(),
{
    let mut jobs: Vec<StoreSignalJob> = Vec::new();
    let mut i: usize = 0;
    while i < strategies.len()
        invariant
            i <= strategies.len(),
            jobs@.len() <= i,
            store_jobs_match(jobs@, *job, strategies@, i as nat, *values, now_ms),
        decreases strategies.len() - i,
    {
        let ghost before = jobs@;
        match SignalEngine::evaluate(job.candles.as_slice(), &strategies[i], values, now_ms) {
            Some(signal) => {
                let strategy_id: i64 = stored_strategy_id_of(&strategies[i]);
                jobs.push(StoreSignalJob { symbol: job.symbol.clone(), signal, strategy_id });
                assert(jobs@.drop_last() =~= before);
            },
            None => {},
        }
        i = i + 1;
    }
    jobs
}

/// The strategy id under which the signals of a strategy are stored.
pub fn stored_strategy_id_of(strategy: &Strategy) -> (r: i64)
    ensures
        r == stored_strategy_id(*strategy),
{
    match strategy.id {
        Some(id) => id,
        None => 0,
    }
}

/// The identity under which the signal of a store job is stored: its
/// strategy and the millisecond at which it was produced.
pub fn signal_identity(job: &StoreSignalJob) -> (r: SignalIdentity)
    ensures
        r == (SignalIdentity { strategy_id: job.strategy_id, timestamp_ms: job.signal.timestamp }),
{
    SignalIdentity { strategy_id: job.strategy_id, timestamp_ms: job.signal.timestamp }
}

/// Whether an identity is among those stored already.
pub fn is_duplicate(stored: &Vec<SignalIdentity>, identity: SignalIdentity) -> (r: bool)
    ensures
        r == stored@.contains(identity),
{
    let mut i: usize = 0;
    while i < stored.len()
        invariant
            i <= stored.len(),
            forall|j: int| 0 <= j < i ==> stored@[j] != identity,
        decreases stored.len() - i,
    {
        if stored[i].strategy_id == identity.strategy_id && stored[i].timestamp_ms
            == identity.timestamp_ms {
            return true;
        }
        i = i + 1;
    }
    false
}

} // verus!
