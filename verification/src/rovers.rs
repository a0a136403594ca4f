//! Reports of the rovers (observation data sources): one per rover, with a
//! selector among them.
use crate::model::{QcIndexing, TimeScale};
use crate::keyed::{AssocMap, KeyView};
use crate::rover::Report as RoverReport;
use crate::selector::Selector;
use vstd::prelude::*;

verus! {

/// Rover identifiers, each once, in the order first met.
pub open spec fn rover_order(s: Seq<(QcIndexing, Option<TimeScale>)>) -> Seq<(u8, Seq<char>)>
    decreases s.len(),
{
    if s.len() == 0 {
        Seq::empty()
    } else {
        let before = rover_order(s.drop_last());
        if before.contains(s.last().0@) {
            before
        } else {
            before.push(s.last().0@)
        }
    }
}

/// Time scale of each rover; a rover listed twice keeps its last one.
pub open spec fn rover_timescales(s: Seq<(QcIndexing, Option<TimeScale>)>) -> Map<
    (u8, Seq<char>),
    Option<TimeScale>,
>
    decreases s.len(),
{
    if s.len() == 0 {
        Map::empty()
    } else {
        rover_timescales(s.drop_last()).insert(s.last().0@, s.last().1)
    }
}

/// Reports of the rovers.
pub struct Report {
    pub selector: Selector<QcIndexing>,
    pub rovers: AssocMap<QcIndexing, RoverReport>,
}

impl Report {
    /// The reports of the rovers of `sources`, each given with the time
    /// scale of its observations.
    pub fn new(sources: &Vec<(QcIndexing, Option<TimeScale>)>) -> (r: Self)
        ensures
            r.selector@ == rover_order(sources@),
            r.selector.spec_html_id() == "rovers"@,
            !r.selector.spec_allows_all(),
            r.rovers@.map_values(|x: RoverReport| x.timescale) == rover_timescales(sources@),
    {
        let mut selector: Selector<QcIndexing> = Selector::new("rovers", false);
        let mut rovers: AssocMap<QcIndexing, RoverReport> = AssocMap::new();
        let mut i: usize = 0;
        proof {
            assert(sources@.subrange(0, 0) =~= Seq::<(QcIndexing, Option<TimeScale>)>::empty());
            assert(rovers@.map_values(|x: RoverReport| x.timescale) =~= Map::<
                (u8, Seq<char>),
                Option<TimeScale>,
            >::empty());
        }
        while i < sources.len()
            invariant
                i <= sources@.len(),
                selector@ == rover_order(sources@.subrange(0, i as int)),
                selector.spec_html_id() == "rovers"@,
                !selector.spec_allows_all(),
                rovers@.map_values(|x: RoverReport| x.timescale) == rover_timescales(
                    sources@.subrange(0, i as int),
                ),
            decreases sources@.len() - i,
        {
            let ghost before = rovers@;
            let source = &sources[i];
            selector.add(&source.0);
            let report = RoverReport::new(source.1);
            rovers.insert(source.0.copy_key(), report);
            proof {
                let sub = sources@.subrange(0, i + 1);
                assert(sub.drop_last() =~= sources@.subrange(0, i as int));
                assert(sub.last() == sources@[i as int]);
                assert(rovers@.map_values(|x: RoverReport| x.timescale) =~= before.map_values(
                    |x: RoverReport| x.timescale,
                ).insert(source.0@, source.1));
            }
            i = i + 1;
        }
        proof {
            assert(sources@.subrange(0, sources@.len() as int) =~= sources@);
        }
        Report { selector, rovers }
    }

    /// True when at least one rover is reported.
    pub fn has_content(&self) -> (b: bool)
        ensures
            b == (self.selector@.len() > 0),
    {
        self.selector.has_content()
    }
}

impl Default for Report {
    /// Reports of no rover.
    fn default() -> (r: Self)
        ensures
            r.selector@ == Seq::<(u8, Seq<char>)>::empty(),
            r.selector.spec_html_id() == "rovers"@,
            !r.selector.spec_allows_all(),
            r.rovers@ == Map::<(u8, Seq<char>), RoverReport>::empty(),
    {
        Report { selector: Selector::new("rovers", false), rovers: AssocMap::new() }
    }
}

} // verus!
