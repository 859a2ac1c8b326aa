//! The errors that the profiler reports.

use vstd::prelude::*;

verus! {

/// Why an operation of the profiler was refused.
#[derive(Clone, Copy, Debug, PartialEq, Eq, Structural)]
pub enum Error {
    /// The profiler, or the collector it owns, could not be set up.
    CreatingError,
    /// A session was asked for while one is active.
    AlreadyRunning,
    /// A session was to be ended while none is active.
    NotRunning,
    /// One sample could not be recorded by the collector.
    AggregatorError,
}

} // verus!
