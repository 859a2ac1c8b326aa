//! Reports: read access to what a session has collected.

use vstd::prelude::*;

use crate::collector::Collector;
use crate::error::Error;
use crate::profiler::Profiler;

verus! {

/// The builder of a report, bound to the profiler as it stands: it hands
/// what the profiler has collected to whoever resolves and renders it.
#[derive(Debug)]
pub struct ReportBuilder<'a> {
    profiler: &'a Result<Profiler, Error>,
}

impl<'a> ReportBuilder<'a> {
    /// The profiler that this builder is bound to.
    pub closed spec fn profiler(&self) -> Result<Profiler, Error> {
        *self.profiler
    }

    /// A builder bound to `profiler`.
    pub fn new(profiler: &'a Result<Profiler, Error>) -> (builder: ReportBuilder<'a>)
        ensures
            builder.profiler() == *profiler,
    {
        ReportBuilder { profiler }
    }

    /// What the profiler has collected. A profiler that could not be set
    /// up has nothing to report: that is `CreatingError`.
    pub fn snapshot(&self) -> (data: Result<&'a Collector, Error>)
        ensures
            match self.profiler() {
                Ok(profiler) => data matches Ok(collector) && collector@ == profiler@.data,
                Err(_) => data == Err::<&Collector, Error>(Error::CreatingError),
            },
    {
        match self.profiler {
            Ok(profiler) => Ok(profiler.data()),
            Err(_) => Err(Error::CreatingError),
        }
    }
}

} // verus!
