//! Orbital projections and residuals: the broadcast ephemeris that applies to
//! each precise (SP3) orbit sample, and the residuals between the two,
//! gathered per satellite.
use crate::constellations_sel::ConstellationsSelector;
use crate::keyed::AssocMap;
use crate::model::{Constellation, Epoch, FloatBits, TimeScale, SV};
use crate::selector::{views_of, AxisSelector, ConstellationSelector, PosVelSelector};
use crate::sorting::{is_increasing_listing, sorted_distinct};
use vstd::prelude::*;

verus! {

/// The time scale in which the broadcast ephemerides of a constellation are
/// expressed: GPST for GPS and for the augmentation systems, QZSST, GST and
/// BDT for QZSS, Galileo and BeiDou, UTC for Glonass; none for IRNSS and for
/// mixed constellations.
pub open spec fn spec_constellation_timescale(c: Constellation) -> Option<TimeScale> {
    match c {
        Constellation::GPS => Some(TimeScale::GPST),
        Constellation::QZSS => Some(TimeScale::QZSST),
        Constellation::Galileo => Some(TimeScale::GST),
        Constellation::BeiDou => Some(TimeScale::BDT),
        Constellation::Glonass => Some(TimeScale::UTC),
        Constellation::IRNSS | Constellation::Mixed => None,
        _ => Some(TimeScale::GPST),
    }
}

/// The time scale in which the broadcast ephemerides of a constellation are
/// expressed, as the GNSS library defines it.
pub fn constellation_timescale(c: Constellation) -> (t: Option<TimeScale>)
    ensures
        t == spec_constellation_timescale(c),
{
    match c {
        Constellation::GPS => Some(TimeScale::GPST),
        Constellation::QZSS => Some(TimeScale::QZSST),
        Constellation::Galileo => Some(TimeScale::GST),
        Constellation::BeiDou => Some(TimeScale::BDT),
        Constellation::Glonass => Some(TimeScale::UTC),
        Constellation::IRNSS | Constellation::Mixed => None,
        _ => Some(TimeScale::GPST),
    }
}

/// True for the constellations whose broadcast ephemerides have no time
/// scale of their own: IRNSS and mixed constellations.
pub open spec fn lacks_timescale(c: Constellation) -> bool {
    c == Constellation::IRNSS || c == Constellation::Mixed
}

/// Every constellation but IRNSS and mixed ones has a time scale for its
/// broadcast ephemerides: GPST for GPS and for every augmentation system,
/// QZSST for QZSS, GST for Galileo, BDT for BeiDou and UTC for Glonass.
pub proof fn law_constellation_timescales(c: Constellation)
    ensures
        spec_constellation_timescale(c) is None <==> lacks_timescale(c),
        c == Constellation::GPS ==> spec_constellation_timescale(c) == Some(TimeScale::GPST),
        c == Constellation::QZSS ==> spec_constellation_timescale(c) == Some(TimeScale::QZSST),
        c == Constellation::Galileo ==> spec_constellation_timescale(c) == Some(TimeScale::GST),
        c == Constellation::BeiDou ==> spec_constellation_timescale(c) == Some(TimeScale::BDT),
        c == Constellation::Glonass ==> spec_constellation_timescale(c) == Some(TimeScale::UTC),
        c != Constellation::GPS && c != Constellation::QZSS && c != Constellation::Galileo && c
            != Constellation::BeiDou && c != Constellation::Glonass && !lacks_timescale(c)
            ==> spec_constellation_timescale(c) == Some(TimeScale::GPST),
{
}

/// What the selection reads of one broadcast ephemeris frame: the
/// satellite, the time of clock, the time of ephemeris in the satellite's
/// time scale (when it can be computed), and whether the ephemeris is valid
/// at the instant of interest.
#[derive(Debug, Clone, Copy)]
pub struct EphemerisCandidate {
    pub sv: SV,
    pub toc: Epoch,
    pub toe: Option<Epoch>,
    pub valid: bool,
}

/// True when a frame may serve for satellite `sv`: it is that satellite's,
/// the constellation has a time scale, the time of ephemeris is known and
/// the ephemeris is valid.
pub open spec fn eligible(c: EphemerisCandidate, sv: SV) -> bool {
    &&& c.sv == sv
    &&& spec_constellation_timescale(sv.constellation) is Some
    &&& c.toe is Some
    &&& c.valid
}

/// Time elapsed from the candidate's time of ephemeris to `t`.
pub open spec fn age(c: EphemerisCandidate, t: Epoch) -> int {
    t.tai_ns - c.toe->0.tai_ns
}

/// A valid frame of satellite `sv`, whose time of ephemeris is known, is
/// eligible for `sv` unless `sv` belongs to IRNSS or to a mixed
/// constellation; a frame of another satellite, an invalid frame or one
/// without a time of ephemeris never is.
pub proof fn law_eligible_frames(c: EphemerisCandidate, sv: SV)
    ensures
        eligible(c, sv) <==> (c.sv == sv && c.toe is Some && c.valid && !lacks_timescale(
            sv.constellation,
        )),
{
    law_constellation_timescales(sv.constellation);
}

/// The broadcast ephemeris frame to use for satellite `sv` at instant `t`:
/// among the eligible frames, the one whose time of ephemeris is the latest
/// (the smallest `t - toe`), the first of them when several tie; none when
/// no frame is eligible.
pub fn select_ephemeris(t: Epoch, sv: SV, candidates: &Vec<EphemerisCandidate>) -> (r: Option<usize>)
    requires
        t.in_range(),
        forall|i: int|
            0 <= i < candidates@.len() && #[trigger] candidates@[i].toe is Some
                ==> candidates@[i].toe->0.in_range(),
    ensures
        match r {
            Some(i) => {
                &&& i < candidates@.len()
                &&& eligible(candidates@[i as int], sv)
                &&& forall|j: int|
                    0 <= j < candidates@.len() && eligible(#[trigger] candidates@[j], sv) ==> age(
                        candidates@[i as int],
                        t,
                    ) <= age(candidates@[j], t)
                &&& forall|j: int|
                    0 <= j < i && eligible(#[trigger] candidates@[j], sv) ==> age(
                        candidates@[i as int],
                        t,
                    ) < age(candidates@[j], t)
            },
            None => forall|j: int| 0 <= j < candidates@.len() ==> !eligible(#[trigger] candidates@[j], sv),
        },
        (exists|j: int|
            0 <= j < candidates@.len() && (#[trigger] candidates@[j]).sv == sv
                && candidates@[j].toe is Some && candidates@[j].valid) && !lacks_timescale(
            sv.constellation,
        ) ==> r is Some,
{
    let has_timescale = constellation_timescale(sv.constellation).is_some();
    let mut best: Option<usize> = None;
    let mut best_age: i128 = 0;
    let mut i: usize = 0;
    while i < candidates.len()
        invariant
            i <= candidates@.len(),
            t.in_range(),
            has_timescale == spec_constellation_timescale(sv.constellation) is Some,
            forall|j: int|
                0 <= j < candidates@.len() && #[trigger] candidates@[j].toe is Some
                    ==> candidates@[j].toe->0.in_range(),
            match best {
                Some(b) => {
                    &&& b < i
                    &&& eligible(candidates@[b as int], sv)
                    &&& best_age == age(candidates@[b as int], t)
                    &&& forall|j: int|
                        0 <= j < i && eligible(#[trigger] candidates@[j], sv) ==> best_age <= age(
                            candidates@[j],
                            t,
                        )
                    &&& forall|j: int|
                        0 <= j < b && eligible(#[trigger] candidates@[j], sv) ==> best_age < age(
                            candidates@[j],
                            t,
                        )
                },
                None => forall|j: int| 0 <= j < i ==> !eligible(#[trigger] candidates@[j], sv),
            },
        decreases candidates@.len() - i,
    {
        let c = &candidates[i];
        if c.sv == sv && has_timescale && c.valid {
            if let Some(toe) = c.toe {
                let d: i128 = t.tai_ns - toe.tai_ns;
                let better = match best {
                    Some(_) => d < best_age,
                    None => true,
                };
                if better {
                    best = Some(i);
                    best_age = d;
                }
            }
        }
        i = i + 1;
    }
    proof {
        if best is None && !lacks_timescale(sv.constellation) {
            law_constellation_timescales(sv.constellation);
            assert forall|j: int|
                0 <= j < candidates@.len() && (#[trigger] candidates@[j]).sv == sv
                    && candidates@[j].toe is Some implies !candidates@[j].valid by {
                assert(!eligible(candidates@[j], sv));
            }
        }
    }
    best
}

/// Residuals of one satellite: the sampling instants and, at each, the
/// error of the broadcast position on each axis (meters).
/// The four series always have the same length.
#[derive(Debug)]
pub struct SvResiduals {
    epochs: Vec<Epoch>,
    x_err_m: Vec<FloatBits>,
    y_err_m: Vec<FloatBits>,
    z_err_m: Vec<FloatBits>,
}

impl SvResiduals {
    #[verifier::type_invariant]
    closed spec fn aligned(self) -> bool {
        &&& self.x_err_m@.len() == self.epochs@.len()
        &&& self.y_err_m@.len() == self.epochs@.len()
        &&& self.z_err_m@.len() == self.epochs@.len()
    }

    /// What the residuals hold: instant and error triplet, in sampling
    /// order.
    pub closed spec fn series(self) -> Seq<(Epoch, (FloatBits, FloatBits, FloatBits))> {
        Seq::new(
            self.epochs@.len(),
            |i: int| (self.epochs@[i], (self.x_err_m@[i], self.y_err_m@[i], self.z_err_m@[i])),
        )
    }

    /// The sampling instants.
    pub fn epochs(&self) -> (s: &[Epoch])
        ensures
            s@ == self.series().map_values(|p: (Epoch, (FloatBits, FloatBits, FloatBits))| p.0),
    {
        proof {
            use_type_invariant(self);
            assert(self.epochs@ =~= self.series().map_values(
                |p: (Epoch, (FloatBits, FloatBits, FloatBits))| p.0,
            ));
        }
        self.epochs.as_slice()
    }

    /// The errors on the x axis (meters).
    pub fn x_err_m(&self) -> (s: &[FloatBits])
        ensures
            s@ == self.series().map_values(|p: (Epoch, (FloatBits, FloatBits, FloatBits))| p.1.0),
    {
        proof {
            use_type_invariant(self);
            assert(self.x_err_m@ =~= self.series().map_values(
                |p: (Epoch, (FloatBits, FloatBits, FloatBits))| p.1.0,
            ));
        }
        self.x_err_m.as_slice()
    }

    /// The errors on the y axis (meters).
    pub fn y_err_m(&self) -> (s: &[FloatBits])
        ensures
            s@ == self.series().map_values(|p: (Epoch, (FloatBits, FloatBits, FloatBits))| p.1.1),
    {
        proof {
            use_type_invariant(self);
            assert(self.y_err_m@ =~= self.series().map_values(
                |p: (Epoch, (FloatBits, FloatBits, FloatBits))| p.1.1,
            ));
        }
        self.y_err_m.as_slice()
    }

    /// The errors on the z axis (meters).
    pub fn z_err_m(&self) -> (s: &[FloatBits])
        ensures
            s@ == self.series().map_values(|p: (Epoch, (FloatBits, FloatBits, FloatBits))| p.1.2),
    {
        proof {
            use_type_invariant(self);
            assert(self.z_err_m@ =~= self.series().map_values(
                |p: (Epoch, (FloatBits, FloatBits, FloatBits))| p.1.2,
            ));
        }
        self.z_err_m.as_slice()
    }

    /// A series of one sample.
    fn first(t: Epoch, err: (FloatBits, FloatBits, FloatBits)) -> (r: Self)
        ensures
            r.series() == seq![(t, err)],
    {
        let r = SvResiduals {
            epochs: vec![t],
            x_err_m: vec![err.0],
            y_err_m: vec![err.1],
            z_err_m: vec![err.2],
        };
        proof {
            assert(r.series() =~= seq![(t, err)]);
        }
        r
    }

    /// The series with one more sample at its end.
    fn appended(self, t: Epoch, err: (FloatBits, FloatBits, FloatBits)) -> (r: Self)
        ensures
            r.series() == self.series().push((t, err)),
    {
        proof {
            use_type_invariant(&self);
        }
        let ghost before = self.series();
        let SvResiduals { mut epochs, mut x_err_m, mut y_err_m, mut z_err_m } = self;
        epochs.push(t);
        x_err_m.push(err.0);
        y_err_m.push(err.1);
        z_err_m.push(err.2);
        let r = SvResiduals { epochs, x_err_m, y_err_m, z_err_m };
        proof {
            assert(r.series() =~= before.push((t, err)));
        }
        r
    }
}

/// What the residuals of a satellite hold: instant and error triplet, in
/// sampling order.
pub open spec fn residual_series(r: SvResiduals) -> Seq<(Epoch, (FloatBits, FloatBits, FloatBits))> {
    r.series()
}

/// The series of every satellite, by satellite.
pub open spec fn residuals_model(m: Map<SV, SvResiduals>) -> Map<
    SV,
    Seq<(Epoch, (FloatBits, FloatBits, FloatBits))>,
> {
    m.map_values(|r: SvResiduals| residual_series(r))
}

/// The series of every satellite after one more sample of `sv`.
pub open spec fn residuals_after(
    m: Map<SV, Seq<(Epoch, (FloatBits, FloatBits, FloatBits))>>,
    sv: SV,
    t: Epoch,
    err: (FloatBits, FloatBits, FloatBits),
) -> Map<SV, Seq<(Epoch, (FloatBits, FloatBits, FloatBits))>> {
    if m.contains_key(sv) {
        m.insert(sv, m[sv].push((t, err)))
    } else {
        m.insert(sv, seq![(t, err)])
    }
}

/// The residual series after each sample of `samples` in turn.
pub open spec fn residuals_after_all(
    m: Map<SV, Seq<(Epoch, (FloatBits, FloatBits, FloatBits))>>,
    samples: Seq<(SV, Epoch, (FloatBits, FloatBits, FloatBits))>,
) -> Map<SV, Seq<(Epoch, (FloatBits, FloatBits, FloatBits))>>
    decreases samples.len(),
{
    if samples.len() == 0 {
        m
    } else {
        let s = samples.last();
        residuals_after(residuals_after_all(m, samples.drop_last()), s.0, s.1, s.2)
    }
}

/// The samples of satellite `sv` among `samples`, in order: instant and
/// error triplet.
pub open spec fn samples_of(
    samples: Seq<(SV, Epoch, (FloatBits, FloatBits, FloatBits))>,
    sv: SV,
) -> Seq<(Epoch, (FloatBits, FloatBits, FloatBits))>
    decreases samples.len(),
{
    if samples.len() == 0 {
        Seq::empty()
    } else {
        let before = samples_of(samples.drop_last(), sv);
        let s = samples.last();
        if s.0 == sv {
            before.push((s.1, s.2))
        } else {
            before
        }
    }
}

/// Starting from no residual, the series of each satellite holds exactly
/// that satellite's samples, in the order they were latched; satellites
/// without samples have no series.
pub proof fn law_residual_series(samples: Seq<(SV, Epoch, (FloatBits, FloatBits, FloatBits))>, sv: SV)
    ensures
        residuals_after_all(Map::empty(), samples).contains_key(sv) == (samples_of(samples, sv).len()
            > 0),
        samples_of(samples, sv).len() > 0 ==> residuals_after_all(Map::empty(), samples)[sv]
            == samples_of(samples, sv),
    decreases samples.len(),
{
    if samples.len() > 0 {
        law_residual_series(samples.drop_last(), sv);
    }
}

/// Appends one sample of `sv` to the residual series.
fn latch_sv_residual(
    residuals: &mut AssocMap<SV, SvResiduals>,
    sv: SV,
    t: Epoch,
    err: (FloatBits, FloatBits, FloatBits),
)
    ensures
        residuals_model(final(residuals)@) == residuals_after(
            residuals_model(old(residuals)@),
            sv,
            t,
            err,
        ),
{
    let ghost before = residuals@;
    let entry = match residuals.remove(&sv) {
        Some(r) => r.appended(t, err),
        None => SvResiduals::first(t, err),
    };
    residuals.insert(sv, entry);
    proof {
        assert(residuals@ == before.insert(sv, entry));
        assert(residuals_model(residuals@) =~= residuals_after(residuals_model(before), sv, t, err));
    }
}

/// Orbital projections: the constellations met and the broadcast/precise
/// residuals of each satellite.
pub struct OrbitalProjections {
    pub constellations_sel: ConstellationsSelector,
    pub residuals: AssocMap<SV, SvResiduals>,
}

impl OrbitalProjections {
    /// Projections with no sample yet.
    pub fn new() -> (p: Self)
        ensures
            p.constellations_sel@ == Seq::<Constellation>::empty(),
            p.constellations_sel.spec_html_id() == "orbit-proj"@,
            p.residuals@ == Map::<SV, SvResiduals>::empty(),
    {
        OrbitalProjections {
            constellations_sel: ConstellationsSelector::new("orbit-proj"),
            residuals: AssocMap::new(),
        }
    }

    /// True when at least one satellite was projected.
    pub fn has_content(&self) -> (b: bool)
        ensures
            b == (self.constellations_sel@.len() > 0),
    {
        self.constellations_sel.has_content()
    }

    /// Records the residual of satellite `sv` at instant `t`: its
    /// constellation is met, and the residual ends its series.
    pub fn latch_residual(&mut self, sv: SV, t: Epoch, err: (FloatBits, FloatBits, FloatBits))
        ensures
            final(self).constellations_sel@ == (if old(self).constellations_sel@.contains(
                sv.constellation,
            ) {
                old(self).constellations_sel@
            } else {
                old(self).constellations_sel@.push(sv.constellation)
            }),
            final(self).constellations_sel.spec_html_id() == old(self).constellations_sel.spec_html_id(),
            residuals_model(final(self).residuals@) == residuals_after(
                residuals_model(old(self).residuals@),
                sv,
                t,
                err,
            ),
    {
        self.constellations_sel.add_sv(&sv);
        latch_sv_residual(&mut self.residuals, sv, t, err);
    }
}

/// Orbit residual projections: per constellation, the position residuals of
/// its satellites, with the selectors that filter them.
pub struct Projection {
    pub axis_sel: AxisSelector,
    pub pos_vel_sel: PosVelSelector,
    pub constellation_sel: ConstellationSelector,
    pub residuals: AssocMap<SV, SvResiduals>,
}

impl Projection {
    /// Projections with no sample yet.
    pub fn new() -> (p: Self)
        ensures
            p.constellation_sel@ == Seq::<Constellation>::empty(),
            p.constellation_sel.spec_allows_all(),
            p.constellation_sel.spec_html_id() == "orbit-residuals-constellation"@,
            p.pos_vel_sel.selector.spec_html_id() == "orbit-residual-posvel"@,
            p.axis_sel.selector.spec_html_id() == "orbit-proj"@,
            p.residuals@ == Map::<SV, SvResiduals>::empty(),
    {
        Projection {
            pos_vel_sel: PosVelSelector::new("orbit-residual-posvel"),
            constellation_sel: ConstellationSelector::new("orbit-residuals-constellation", true),
            axis_sel: AxisSelector::new("orbit-proj"),
            residuals: AssocMap::new(),
        }
    }

    /// True when at least one constellation has residuals.
    pub fn has_content(&self) -> (b: bool)
        ensures
            b == (self.constellation_sel@.len() > 0),
    {
        self.constellation_sel.has_content()
    }

    /// Records the position residual of satellite `sv` at instant `t`: its
    /// constellation is met, and the residual ends its series.
    pub fn latch_residual(&mut self, sv: SV, t: Epoch, err: (FloatBits, FloatBits, FloatBits))
        ensures
            old(self).constellation_sel@.contains(sv.constellation)
                ==> final(self).constellation_sel@ == old(self).constellation_sel@,
            !old(self).constellation_sel@.contains(sv.constellation)
                ==> final(self).constellation_sel@ == old(self).constellation_sel@.push(sv.constellation),
            final(self).constellation_sel.spec_html_id() == old(self).constellation_sel.spec_html_id(),
            final(self).constellation_sel.spec_allows_all() == old(self).constellation_sel.spec_allows_all(),
            residuals_model(final(self).residuals@) == residuals_after(
                residuals_model(old(self).residuals@),
                sv,
                t,
                err,
            ),
    {
        self.constellation_sel.add(&sv.constellation);
        latch_sv_residual(&mut self.residuals, sv, t, err);
    }
}

impl Projection {
    /// The constellations that have a position residual plot, in increasing
    /// order.
    pub fn render(&self) -> (r: Vec<Constellation>)
        ensures
            is_increasing_listing::<Constellation>(views_of(r@), self.constellation_sel@.to_set()),
    {
        let n = self.constellation_sel.len();
        let mut items: Vec<Constellation> = Vec::new();
        let mut i: usize = 0;
        while i < n
            invariant
                i <= n,
                n == self.constellation_sel@.len(),
                views_of(items@) == self.constellation_sel@.subrange(0, i as int),
            decreases n - i,
        {
            let ghost before = views_of(items@);
            let c = *self.constellation_sel.item(i);
            items.push(c);
            proof {
                assert(c == self.constellation_sel@[i as int]);
                assert(views_of(items@) =~= before.push(c));
                assert(self.constellation_sel@.subrange(0, i + 1) =~= self.constellation_sel@.subrange(
                    0,
                    i as int,
                ).push(self.constellation_sel@[i as int]));
            }
            i = i + 1;
        }
        proof {
            assert(self.constellation_sel@.subrange(0, n as int) =~= self.constellation_sel@);
        }
        sorted_distinct(&items)
    }
}

/// Orbit residual projections when the processing cannot compare orbits:
/// they never have content.
#[derive(Debug, Clone, Copy)]
pub struct OrbitResidualProjects {
    pub not_empty: bool,
}

impl OrbitResidualProjects {
    /// Projections without content.
    pub fn new() -> (p: Self)
        ensures
            !p.not_empty,
    {
        OrbitResidualProjects { not_empty: false }
    }
}

impl Default for OrbitalProjections {
    /// Projections with no sample yet.
    fn default() -> (p: Self)
        ensures
            p.constellations_sel@ == Seq::<Constellation>::empty(),
            p.constellations_sel.spec_html_id() == "orbit-proj"@,
            p.residuals@ == Map::<SV, SvResiduals>::empty(),
    {
        OrbitalProjections::new()
    }
}

impl Default for Projection {
    /// Projections with no sample yet, whose selectors all use the
    /// "orbit-residuals" identifier.
    fn default() -> (p: Self)
        ensures
            p.constellation_sel@ == Seq::<Constellation>::empty(),
            p.constellation_sel.spec_allows_all(),
            p.constellation_sel.spec_html_id() == "orbit-residuals"@,
            p.pos_vel_sel.selector.spec_html_id() == "orbit-residuals"@,
            p.axis_sel.selector.spec_html_id() == "orbit-residuals"@,
            p.residuals@ == Map::<SV, SvResiduals>::empty(),
    {
        Projection {
            pos_vel_sel: PosVelSelector::new("orbit-residuals"),
            constellation_sel: ConstellationSelector::new("orbit-residuals", true),
            axis_sel: AxisSelector::new("orbit-residuals"),
            residuals: AssocMap::new(),
        }
    }
}

} // verus!
