//! Download statistics for packages published on a remote registry.
//!
//! The library computes the calendar window a report covers, aggregates raw
//! per-version download events into per-day totals, drives a bounded-concurrency
//! fetch schedule, and assembles the final report grid with row and column
//! totals. Network access, argument parsing and rendering live outside the
//! library; they hand plain values in and take plain values back.

use vstd::prelude::*;

pub mod aggregate;
pub mod dates;
pub mod report;
pub mod schedule;

verus! {

/// A fatal error in the operator's request: the report cannot even be started.
#[derive(Clone, Copy, PartialEq, Eq, Structural, Debug)]
pub enum ArgumentError {
    /// The requested window holds no days at all.
    EmptyWindow,
}

impl ArgumentError {
    /// The message shown to the operator for this error.
    pub fn message(&self) -> (s: String)
        ensures
            s@ == "window must request at least one day"@,
    {
        String::from_str("window must request at least one day")
    }
}

/// A per-package failure while talking to the registry. Such a failure is
/// absorbed by the scheduler: the package contributes all-zero data.
#[derive(Clone, Copy, PartialEq, Eq, Structural, Debug)]
pub enum FetchError {
    /// The transport failed or the registry did not answer.
    Transport,
    /// The registry does not know the requested identifier.
    NotFound,
    /// The registry refused the request because of its rate limit.
    RateLimited,
}

} // verus!
