use vstd::prelude::*;

verus! {

/// What can end an orchestration, or one of its steps, without a booking.
#[derive(Debug, Clone)]
pub enum ResyError {
    /// A remote call failed or answered with a non-success status.
    Service(String),
    /// A response body did not have the expected shape.
    Parse(String),
    /// The search answered with no venue at all.
    NoAvailability,
    /// There were slots, but none satisfied the filters.
    NoMatch,
    /// The poll deadline passed with no match.
    Timeout { elapsed_ms: u64, attempts: u64 },
    /// Every worker used up its retries without success.
    Exhausted { attempts: u64, workers: u64 },
}

} // verus!
