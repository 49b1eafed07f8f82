//! The configuration of the worker runtime.

use vstd::prelude::*;
use vstd::string::StringExecFns;

verus! {

/// The configuration of the job runtime.
#[derive(Clone)]
pub struct RuntimeConfig {
    pub evaluation_interval_seconds: u64,
    pub symbols: Vec<String>,
}

impl Default for RuntimeConfig {
    /// One evaluation a minute, of `BTC-PERP`.
    fn default() -> (r: Self)
        ensures
            r.evaluation_interval_seconds == 60,
            r.symbols@.len() == 1,
            r.symbols@[0]@ == "BTC-PERP"@,
    {
        let mut symbols: Vec<String> = Vec::new();
        symbols.push(String::from_str("BTC-PERP"));
        Self { evaluation_interval_seconds: 60, symbols }
    }
}

/// The number of workers for a number of configured symbols: one for each,
/// and at least one.
pub open spec fn default_concurrency(symbol_count: nat) -> nat {
    if symbol_count == 0 {
        1
    } else {
        symbol_count
    }
}

/// The worker runtime: its configuration and the number of workers of each
/// group.
pub struct SignalRuntime {
    config: RuntimeConfig,
    concurrency: usize,
}

impl SignalRuntime {
    /// The number of workers of each group.
    pub closed spec fn workers(&self) -> nat {
        self.concurrency as nat
    }

    /// The configuration.
    pub closed spec fn configuration(&self) -> RuntimeConfig {
        self.config
    }

    /// A runtime with one worker for each configured symbol, and at least
    /// one.
    pub fn new(config: RuntimeConfig) -> (r: Self)
        ensures
            r.workers() == default_concurrency(config.symbols@.len()),
            r.configuration() == config,
    {
        let concurrency: usize = if config.symbols.len() == 0 {
            1
        } else {
            config.symbols.len()
        };
        Self { config, concurrency }
    }

    /// The same runtime with the given number of workers.
    pub fn with_concurrency(self, concurrency: usize) -> (r: Self)
        ensures
            r.workers() == concurrency,
            r.configuration() == self.configuration(),
    {
        Self { config: self.config, concurrency }
    }

    /// The number of workers of each group.
    pub fn concurrency(&self) -> (r: usize)
        ensures
            r == self.workers(),
    {
        self.concurrency
    }

    /// The configuration.
    pub fn config(&self) -> (r: &RuntimeConfig)
        ensures
            *r == self.configuration(),
    {
        &self.config
    }
}

} // verus!
