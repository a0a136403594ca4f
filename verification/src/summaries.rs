//! Per-file summaries of the input products (RINEX and SP3 headers).
use crate::header::{
    Antenna, GeodeticMarker, Receiver, RinexHeader, RinexType, RinexVersion, Sp3Header,
    Sp3Version,
};
use crate::keyed::AssocMap;
use crate::labels::{orbit_type_label, spec_orbit_type_label};
use crate::model::{Frame, QcReferencePosition, QcSourceDescriptor, TimeScale};
use vstd::prelude::*;

verus! {

/// Summary of one RINEX file.
#[derive(Debug)]
pub struct QcRINEXFileSummary {
    pub version: RinexVersion,
    /// Time scale of the file's data, if that applies.
    pub timescale: Option<TimeScale>,
    /// Reference position, if any.
    pub reference_position: Option<QcReferencePosition>,
    pub receiver: Option<Receiver>,
    pub antenna: Option<Antenna>,
    pub geodetic_marker: Option<GeodeticMarker>,
    /// System time corrections of RINEX V3 navigation files, each as
    /// (target, reference).
    pub v3_time_corrections: Vec<(TimeScale, TimeScale)>,
}

/// Reference position a RINEX header gives: its approximate position, dated
/// by the time of first observation and expressed in the ECEF `frame`; none
/// unless both the position and that time are known.
pub open spec fn spec_reference_position(h: RinexHeader, frame: Frame) -> Option<QcReferencePosition> {
    match (h.rx_position, h.obs) {
        (Some(p), Some(obs)) => match obs.timeof_first_obs {
            Some(t) => Some(
                QcReferencePosition {
                    x_ecef_m: p.0,
                    y_ecef_m: p.1,
                    z_ecef_m: p.2,
                    epoch: Some(t),
                    frame: Some(frame),
                },
            ),
            None => None,
        },
        _ => None,
    }
}

/// Time scale of a RINEX file: for observations, that of the time of first
/// observation, else of the time of last observation; UTC for ionosphere
/// maps, meteo and clock files; none for the other kinds.
pub open spec fn spec_file_timescale(h: RinexHeader) -> Option<TimeScale> {
    match h.rinex_type {
        RinexType::ObservationData => match h.obs {
            Some(obs) => match obs.timeof_first_obs {
                Some(t) => Some(t.time_scale),
                None => match obs.timeof_last_obs {
                    Some(t) => Some(t.time_scale),
                    None => None,
                },
            },
            None => None,
        },
        RinexType::IonosphereMaps | RinexType::MeteoData | RinexType::ClockData => Some(
            TimeScale::UTC,
        ),
        RinexType::NavigationData | RinexType::AntennaData | RinexType::DORIS => None,
    }
}

/// System time corrections of a RINEX file: those of its navigation header
/// for a navigation file, none otherwise.
pub open spec fn spec_time_corrections(h: RinexHeader) -> Seq<(TimeScale, TimeScale)> {
    if h.rinex_type == RinexType::NavigationData {
        match h.nav {
            Some(nav) => nav.time_offsets@,
            None => Seq::empty(),
        }
    } else {
        Seq::empty()
    }
}

/// Copy of a list of time scale pairs.
fn copy_pairs(v: &Vec<(TimeScale, TimeScale)>) -> (r: Vec<(TimeScale, TimeScale)>)
    ensures
        r@ == v@,
{
    let mut r: Vec<(TimeScale, TimeScale)> = Vec::new();
    let mut i: usize = 0;
    while i < v.len()
        invariant
            i <= v@.len(),
            r@ == v@.subrange(0, i as int),
        decreases v@.len() - i,
    {
        r.push(v[i]);
        i = i + 1;
        proof {
            assert(r@ =~= v@.subrange(0, i as int));
        }
    }
    proof {
        assert(v@.subrange(0, v@.len() as int) =~= v@);
    }
    r
}

/// A RINEX header gives a reference position exactly when it announces an
/// approximate position and a time of first observation; that position is
/// the header's, coordinate for coordinate, dated by the time of first
/// observation and expressed in the given frame.
pub proof fn law_reference_position(h: RinexHeader, frame: Frame)
    ensures
        spec_reference_position(h, frame) is Some <==> (h.rx_position is Some && h.obs is Some
            && h.obs.unwrap().timeof_first_obs is Some),
        spec_reference_position(h, frame) is Some ==> {
            let p = spec_reference_position(h, frame).unwrap();
            &&& p.x_ecef_m == h.rx_position.unwrap().0
            &&& p.y_ecef_m == h.rx_position.unwrap().1
            &&& p.z_ecef_m == h.rx_position.unwrap().2
            &&& p.epoch == h.obs.unwrap().timeof_first_obs
            &&& p.frame == Some(frame)
        },
{
}

impl QcRINEXFileSummary {
    /// Summarizes a RINEX header, whose position is expressed in the ECEF
    /// frame `frame_ecef`.
    pub fn from_header(header: &RinexHeader, frame_ecef: Frame) -> (s: Self)
        ensures
            s.version == header.version,
            s.antenna == header.rcvr_antenna,
            s.receiver == header.rcvr,
            s.geodetic_marker == header.geodetic_marker,
            s.reference_position == spec_reference_position(*header, frame_ecef),
            s.reference_position is Some <==> (header.rx_position is Some && header.obs is Some
                && header.obs.unwrap().timeof_first_obs is Some),
            s.reference_position is Some ==> {
                let p = s.reference_position.unwrap();
                &&& p.x_ecef_m == header.rx_position.unwrap().0
                &&& p.y_ecef_m == header.rx_position.unwrap().1
                &&& p.z_ecef_m == header.rx_position.unwrap().2
                &&& p.epoch == header.obs.unwrap().timeof_first_obs
                &&& p.frame == Some(frame_ecef)
            },
            s.v3_time_corrections@ == spec_time_corrections(*header),
            s.timescale == spec_file_timescale(*header),
    {
        let reference_position = match header.rx_position {
            Some(p) => match &header.obs {
                Some(obs) => match obs.timeof_first_obs {
                    Some(time_of_first_obs) => Some(
                        QcReferencePosition {
                            x_ecef_m: p.0,
                            y_ecef_m: p.1,
                            z_ecef_m: p.2,
                            epoch: Some(time_of_first_obs),
                            frame: Some(frame_ecef),
                        },
                    ),
                    None => None,
                },
                None => None,
            },
            None => None,
        };
        let v3_time_corrections = if matches!(header.rinex_type, RinexType::NavigationData) {
            match &header.nav {
                Some(nav) => copy_pairs(&nav.time_offsets),
                None => Vec::new(),
            }
        } else {
            Vec::new()
        };
        let timescale = match header.rinex_type {
            RinexType::ObservationData => match &header.obs {
                Some(obs) => match obs.timeof_first_obs {
                    Some(epoch) => Some(epoch.time_scale),
                    None => match obs.timeof_last_obs {
                        Some(epoch) => Some(epoch.time_scale),
                        None => None,
                    },
                },
                None => None,
            },
            RinexType::IonosphereMaps | RinexType::MeteoData | RinexType::ClockData => Some(
                TimeScale::UTC,
            ),
            RinexType::NavigationData | RinexType::AntennaData | RinexType::DORIS => None,
        };
        let antenna = match &header.rcvr_antenna {
            Some(a) => Some(a.clone()),
            None => None,
        };
        let receiver = match &header.rcvr {
            Some(r) => Some(r.clone()),
            None => None,
        };
        let geodetic_marker = match &header.geodetic_marker {
            Some(m) => Some(m.clone()),
            None => None,
        };
        QcRINEXFileSummary {
            version: header.version,
            antenna,
            receiver,
            geodetic_marker,
            reference_position,
            v3_time_corrections,
            timescale,
        }
    }
}

/// Summary of one SP3 file.
#[derive(Debug)]
pub struct QcSP3FileSummary {
    pub version: Sp3Version,
    pub timescale: TimeScale,
    /// Publishing agency.
    pub agency: String,
    /// Coordinates system.
    pub frame: String,
    /// Orbit type, as text.
    pub orbit_type: String,
    /// True if velocities are reported.
    pub has_sv_velocities: bool,
    /// True if clock offsets are reported.
    pub has_sv_clock_offsets: bool,
    /// True if clock drifts are reported.
    pub has_sv_clock_drift: bool,
    /// True if at least one clock event is reported.
    pub has_sv_clock_event: bool,
    /// True if at least one maneuver is reported.
    pub has_sv_maneuver: bool,
}

impl QcSP3FileSummary {
    /// Summarizes an SP3 header. The header alone tells nothing of the
    /// content, so every content flag is false.
    pub fn from_header(header: &Sp3Header) -> (s: Self)
        ensures
            s.version == header.version,
            s.frame == header.coord_system,
            s.timescale == header.timescale,
            s.agency == header.agency,
            s.orbit_type@ == spec_orbit_type_label(header.orbit_type),
            !s.has_sv_clock_drift,
            !s.has_sv_clock_event,
            !s.has_sv_clock_offsets,
            !s.has_sv_maneuver,
            !s.has_sv_velocities,
    {
        QcSP3FileSummary {
            version: header.version,
            frame: header.coord_system.clone(),
            timescale: header.timescale,
            agency: header.agency.clone(),
            orbit_type: orbit_type_label(header.orbit_type),
            has_sv_clock_drift: false,
            has_sv_clock_event: false,
            has_sv_clock_offsets: false,
            has_sv_maneuver: false,
            has_sv_velocities: false,
        }
    }
}

/// Summary of one input file.
#[derive(Debug)]
pub enum QcFileSummary {
    RINEX(QcRINEXFileSummary),
    SP3(QcSP3FileSummary),
}

impl QcFileSummary {
    /// The RINEX summary, if this is one.
    pub fn as_rinex(&self) -> (r: Option<&QcRINEXFileSummary>)
        ensures
            match self {
                QcFileSummary::RINEX(s) => r == Some(s),
                _ => r is None,
            },
    {
        match self {
            QcFileSummary::RINEX(sum) => Some(sum),
            _ => None,
        }
    }

    /// The SP3 summary, if this is one.
    pub fn as_sp3(&self) -> (r: Option<&QcSP3FileSummary>)
        ensures
            match self {
                QcFileSummary::SP3(s) => r == Some(s),
                _ => r is None,
            },
    {
        match self {
            QcFileSummary::SP3(sum) => Some(sum),
            _ => None,
        }
    }
}

/// Summaries of every input file, by file descriptor.
pub struct QcContextSummary {
    /// ECEF frame in which the reference positions are expressed.
    pub frame: Frame,
    pub summaries: AssocMap<QcSourceDescriptor, QcFileSummary>,
}

impl QcContextSummary {
    /// An empty summary, whose reference positions are expressed in the
    /// ECEF `frame`.
    pub fn new(frame: Frame) -> (s: Self)
        ensures
            s.frame == frame,
            s.summaries@.dom() == Set::<
                (crate::model::QcProductType, (u8, Seq<char>), Seq<char>),
            >::empty(),
    {
        QcContextSummary { frame, summaries: AssocMap::new() }
    }

    /// Latches the summary of a RINEX header, replacing any earlier summary
    /// of the same file.
    pub fn latch_rinex(&mut self, descriptor: QcSourceDescriptor, data: &RinexHeader)
        ensures
            final(self).frame == old(self).frame,
            final(self).summaries@.dom() == old(self).summaries@.dom().insert(descriptor@),
            forall|k|
                k != descriptor@ && #[trigger] old(self).summaries@.contains_key(k) ==> final(self).summaries@[k] == old(self).summaries@[k],
            ({
                let s = final(self).summaries@[descriptor@];
                &&& s is RINEX
                &&& s->RINEX_0.version == data.version
                &&& s->RINEX_0.antenna == data.rcvr_antenna
                &&& s->RINEX_0.receiver == data.rcvr
                &&& s->RINEX_0.geodetic_marker == data.geodetic_marker
                &&& s->RINEX_0.reference_position == spec_reference_position(*data, old(self).frame)
                &&& s->RINEX_0.v3_time_corrections@ == spec_time_corrections(*data)
                &&& s->RINEX_0.timescale == spec_file_timescale(*data)
            }),
    {
        let sum = QcRINEXFileSummary::from_header(data, self.frame);
        self.summaries.insert(descriptor, QcFileSummary::RINEX(sum));
    }

    /// Latches the summary of an SP3 header, replacing any earlier summary of
    /// the same file.
    pub fn latch_sp3(&mut self, descriptor: QcSourceDescriptor, data: &Sp3Header)
        ensures
            final(self).frame == old(self).frame,
            final(self).summaries@.dom() == old(self).summaries@.dom().insert(descriptor@),
            forall|k|
                k != descriptor@ && #[trigger] old(self).summaries@.contains_key(k) ==> final(self).summaries@[k] == old(self).summaries@[k],
            ({
                let s = final(self).summaries@[descriptor@];
                &&& s is SP3
                &&& s->SP3_0.version == data.version
                &&& s->SP3_0.frame == data.coord_system
                &&& s->SP3_0.timescale == data.timescale
                &&& s->SP3_0.agency == data.agency
                &&& s->SP3_0.orbit_type@ == spec_orbit_type_label(data.orbit_type)
                &&& !s->SP3_0.has_sv_clock_drift
                &&& !s->SP3_0.has_sv_clock_event
                &&& !s->SP3_0.has_sv_clock_offsets
                &&& !s->SP3_0.has_sv_maneuver
                &&& !s->SP3_0.has_sv_velocities
            }),
    {
        let sum = QcSP3FileSummary::from_header(data);
        self.summaries.insert(descriptor, QcFileSummary::SP3(sum));
    }
}

} // verus!
