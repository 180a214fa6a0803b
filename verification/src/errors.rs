//! Failure taxonomy for the synchronous operations: connection
//! failures toward the runtime, lookups that found nothing, and
//! external processes that failed.  Parse failures never surface
//! here — a malformed size entry is dropped, not reported — and
//! stream failures arrive as events, not errors.

use vstd::prelude::*;

verus! {

/// One descriptive failure of a synchronous operation.
#[derive(Debug)]
pub enum TelemetryError {
    /// The container runtime cannot be reached.
    Connection(String),
    /// The requested entity was not found, or a feed yielded nothing.
    Lookup(String),
    /// An external process could not be spawned or exited nonzero.
    Execution(String),
}

/// The human-readable text a failure carries.
pub open spec fn spec_message(e: TelemetryError) -> Seq<char> {
    match e {
        TelemetryError::Connection(m) => m@,
        TelemetryError::Lookup(m) => m@,
        TelemetryError::Execution(m) => m@,
    }
}

impl TelemetryError {
    /// The human-readable text of this failure.
    pub fn message(&self) -> (r: String)
        ensures
            r@ == spec_message(*self),
    {
        match self {
            TelemetryError::Connection(m) => m.clone(),
            TelemetryError::Lookup(m) => m.clone(),
            TelemetryError::Execution(m) => m.clone(),
        }
    }
}

} // verus!
