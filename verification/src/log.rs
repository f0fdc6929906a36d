//! Messages shown on the screen for a while.
use std::time::Instant;
use vstd::prelude::*;

verus! {

#[verifier::external_type_specification]
#[verifier::external_body]
pub struct ExInstant(std::time::Instant);

/// Calls `Instant::now`. Nothing is claimed of the result: it is the
/// moment of the call.
#[verifier::external_body]
fn now() -> (t: Instant) {
    Instant::now()
}

/// A message with the moment it was logged.
#[derive(Debug)]
pub struct LogEntry {
    pub timestamp: Instant,
    pub message: String,
}

impl LogEntry {
    /// A message logged now.
    pub fn new(message: String) -> (e: LogEntry)
        ensures
            e.message == message,
    {
        LogEntry { timestamp: now(), message }
    }
}

} // verus!
