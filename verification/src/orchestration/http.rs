//! The health status that the service reports.

use vstd::prelude::*;
use vstd::string::StringExecFns;

verus! {

/// The health of the process as the health endpoint reports it.
#[derive(Clone, Debug)]
pub struct HealthStatus {
    pub status: String,
}

impl Default for HealthStatus {
    /// A running process is healthy.
    fn default() -> (r: Self)
        ensures
            r.status@ == "healthy"@,
    {
        Self { status: String::from_str("healthy") }
    }
}

} // verus!
