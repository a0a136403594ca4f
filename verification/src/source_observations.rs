//! Observation report of one data source.
use crate::model::TimeScale;
use vstd::prelude::*;

verus! {

/// Observation report of one data source: the time scale in which its
/// observations are reported (GPST).
#[derive(Debug, Clone, Copy)]
pub struct Report {
    pub timescale: TimeScale,
}

impl Report {
    /// The report of a data source; observations are reported in GPST.
    pub fn new() -> (r: Self)
        ensures
            r.timescale == TimeScale::GPST,
    {
        Report { timescale: TimeScale::GPST }
    }
}

} // verus!
