//! A statistical CPU sampling profiler: the session state machine, the
//! sample aggregation and the timer that drives sampling.

use vstd::prelude::*;

pub mod collector;
pub mod error;
pub mod frames;
pub mod profiler;
pub mod report;
pub mod thread_name;
pub mod timer;

verus! {

/// The largest number of return addresses kept for one captured stack.
pub const MAX_DEPTH: usize = 32;

/// The largest number of bytes kept of a thread's label.
pub const MAX_THREAD_NAME: usize = 16;

} // verus!
