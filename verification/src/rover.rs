//! Report of one rover (observation data source).
use crate::labels::{spec_timescale_label, timescale_label};
use crate::model::TimeScale;
use vstd::prelude::*;

verus! {

/// Report of one rover: the time scale in which its observations are
/// expressed, when known.
#[derive(Debug, Clone, Copy)]
pub struct Report {
    pub timescale: Option<TimeScale>,
}

impl Report {
    /// The report of a rover whose observations are expressed in
    /// `timescale`.
    pub fn new(timescale: Option<TimeScale>) -> (r: Self)
        ensures
            r.timescale == timescale,
    {
        Report { timescale }
    }

    /// What the report's timescale cell reads: the time scale, or
    /// "Undefined" when it is not known.
    pub fn render(&self) -> (s: String)
        ensures
            s@ == match self.timescale {
                Some(t) => spec_timescale_label(t),
                None => "Undefined"@,
            },
    {
        match self.timescale {
            Some(t) => timescale_label(t),
            None => String::from_str("Undefined"),
        }
    }
}

} // verus!
