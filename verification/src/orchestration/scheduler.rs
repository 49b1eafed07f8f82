//! The scheduler: from an interval in seconds to a cron schedule, and from a
//! tick of the schedule to the jobs to enqueue.

use crate::jobs::types::FetchCandlesJob;
use crate::services::hyperliquid::provider::texts;
use crate::text::{nat_text, nat_to_text};
use vstd::prelude::*;
use vstd::string::StringExecFns;

verus! {

/// A parsed cron schedule.
#[verifier::external_type_specification]
#[verifier::external_body]
pub struct ExSchedule(cron::Schedule);

/// The error of parsing a cron expression.
#[verifier::external_type_specification]
#[verifier::external_body]
pub struct ExCronError(cron::error::Error);

/// Whether `cron` takes a text as a schedule expression.
pub uninterp spec fn cron_accepts(expression: Seq<char>) -> bool;

/// Calls `from_str` of `cron::Schedule`. The call succeeds on the expressions
/// that `cron` takes, and on no others.
#[verifier::external_body]
fn parse_schedule(expression: &str) -> (r: Result<cron::Schedule, cron::error::Error>)
    ensures
        r is Ok <==> cron_accepts(expression@),
{
    std::str::FromStr::from_str(expression)
}

/// Why there is no scheduler.
#[derive(Clone, Debug, PartialEq, Eq)]
pub enum SchedulerError {
    /// The interval is zero: scheduling is switched off.
    Disabled,
    /// The cron expression made from the interval is refused; the text is
    /// the expression.
    InvalidCron(String),
}

/// The cron expression for an interval in seconds, with the six fields
/// second, minute, hour, day, month and weekday: every so many minutes from
/// one minute on, every so many seconds below.
pub open spec fn cron_expression_text(interval_seconds: nat) -> Seq<char> {
    if interval_seconds >= 60 {
        "0 */"@ + nat_text(interval_seconds / 60) + " * * * *"@
    } else {
        "*/"@ + nat_text(interval_seconds) + " * * * * *"@
    }
}

/// The cron expression for an interval in seconds. There is none for the
/// interval zero.
pub fn cron_expression(interval_seconds: u64) -> (r: Result<String, SchedulerError>)
    ensures
        interval_seconds == 0 ==> r == Err::<String, SchedulerError>(SchedulerError::Disabled),
        interval_seconds > 0 ==> (r matches Ok(text) && text@ == cron_expression_text(
            interval_seconds as nat,
        )),
{
    if interval_seconds == 0 {
        return Err(SchedulerError::Disabled);
    }
    if interval_seconds >= 60 {
        let mut text = String::from_str("0 */");
        let minutes = nat_to_text(interval_seconds / 60);
        text.append(minutes.as_str());
        text.append(" * * * *");
        assert(text@ =~= cron_expression_text(interval_seconds as nat));
        Ok(text)
    } else {
        let mut text = String::from_str("*/");
        let seconds = nat_to_text(interval_seconds);
        text.append(seconds.as_str());
        text.append(" * * * * *");
        assert(text@ =~= cron_expression_text(interval_seconds as nat));
        Ok(text)
    }
}

/// The symbols of some fetch jobs, in order.
pub open spec fn job_symbols(jobs: Seq<FetchCandlesJob>) -> Seq<Seq<char>> {
    Seq::new(jobs.len(), |i: int| jobs[i].symbol@)
}

/// How long to wait at `now_ms` for a tick at `next_tick_ms`, in
/// milliseconds: not at all where the tick is due or past.
pub open spec fn wait_before_tick(now_ms: i64, next_tick_ms: i64) -> int {
    if next_tick_ms > now_ms {
        next_tick_ms - now_ms
    } else {
        0
    }
}

/// The scheduler: the symbols to evaluate and the schedule on which to do
/// so.
pub struct JobScheduler {
    symbols: Vec<String>,
    expression: String,
    schedule: cron::Schedule,
}

impl JobScheduler {
    /// The symbols for which jobs are enqueued.
    pub closed spec fn symbol_texts(&self) -> Seq<Seq<char>> {
        texts(self.symbols@)
    }

    /// The cron expression of the schedule.
    pub closed spec fn expression_text(&self) -> Seq<char> {
        self.expression@
    }

    /// The schedule that the scheduler was made with.
    pub closed spec fn held_schedule(&self) -> cron::Schedule {
        self.schedule
    }

    /// A scheduler from the outcome of parsing a cron expression.
    pub fn from_parsed(
        symbols: Vec<String>,
        expression: String,
        parsed: Result<cron::Schedule, cron::error::Error>,
    ) -> (r: Result<JobScheduler, SchedulerError>)
        ensures
            match parsed {
                Ok(schedule) => r matches Ok(scheduler) && scheduler.symbol_texts() == texts(
                    symbols@,
                ) && scheduler.expression_text() == expression@ && scheduler.held_schedule()
                    == schedule,
                Err(_) => r matches Err(SchedulerError::InvalidCron(text)) && text@
                    == expression@,
            },
    {
        match parsed {
            Ok(schedule) => Ok(JobScheduler { symbols, expression, schedule }),
            Err(_) => Err(SchedulerError::InvalidCron(expression)),
        }
    }

    /// A scheduler that enqueues a job for each symbol every
    /// `interval_seconds` seconds. The interval zero switches scheduling off.
    pub fn new(symbols: Vec<String>, interval_seconds: u64) -> (r: Result<
        JobScheduler,
        SchedulerError,
    >)
        ensures
            interval_seconds == 0 ==> r == Err::<JobScheduler, SchedulerError>(
                SchedulerError::Disabled,
            ),
            interval_seconds > 0 && cron_accepts(cron_expression_text(interval_seconds as nat))
                ==> (r matches Ok(scheduler) && scheduler.symbol_texts() == texts(symbols@)
                && scheduler.expression_text() == cron_expression_text(interval_seconds as nat)),
            interval_seconds > 0 && !cron_accepts(cron_expression_text(interval_seconds as nat))
                ==> (r matches Err(SchedulerError::InvalidCron(text)) && text@
                == cron_expression_text(interval_seconds as nat)),
    {
        let expression = match cron_expression(interval_seconds) {
            Ok(expression) => expression,
            Err(e) => {
                return Err(e);
            },
        };
        let parsed = parse_schedule(expression.as_str());
        Self::from_parsed(symbols, expression, parsed)
    }

    /// The jobs to enqueue at a tick: one for each symbol, in the order of
    /// the symbols.
    pub fn jobs_for_tick(&self) -> (r: Vec<FetchCandlesJob>)
        ensures
            job_symbols(r@) == self.symbol_texts(),
    {
        let mut jobs: Vec<FetchCandlesJob> = Vec::new();
        let mut i: usize = 0;
        while i < self.symbols.len()
            invariant
                i <= self.symbols.len(),
                jobs@.len() == i,
                forall|j: int| 0 <= j < i ==> (#[trigger] jobs@[j]).symbol@ == self.symbols@[j]@,
            decreases self.symbols.len() - i,
        {
            jobs.push(FetchCandlesJob { symbol: self.symbols[i].clone() });
            i = i + 1;
        }
        assert(job_symbols(jobs@) =~= self.symbol_texts());
        jobs
    }

    /// The parsed schedule.
    pub fn schedule(&self) -> (r: &cron::Schedule)
        ensures
            *r == self.held_schedule(),
    {
        &self.schedule
    }

    /// The cron expression of the schedule.
    pub fn expression(&self) -> (r: &String)
        ensures
            r@ == self.expression_text(),
    {
        &self.expression
    }

    /// How long to wait at `now_ms` for a tick at `next_tick_ms`, in
    /// milliseconds.
    pub fn sleep_before(now_ms: i64, next_tick_ms: i64) -> (r: u64)
        ensures
            r == wait_before_tick(now_ms, next_tick_ms),
    {
        if next_tick_ms > now_ms {
            let wait: i128 = next_tick_ms as i128 - now_ms as i128;
            wait as u64
        } else {
            0
        }
    }
}

} // verus!
