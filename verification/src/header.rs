//! Plain-value models of the RINEX and SP3 file headers that the reports
//! summarize.
use crate::model::{Epoch, FloatBits, QcIndexing, TimeScale};
use vstd::prelude::*;

verus! {

/// RINEX revision.
#[derive(Debug, Clone, Copy, PartialEq, Eq, Structural)]
pub struct RinexVersion {
    pub major: u8,
    pub minor: u8,
}

/// Kinds of RINEX files.
#[derive(Debug, Clone, Copy, PartialEq, Eq, Structural)]
pub enum RinexType {
    ObservationData,
    NavigationData,
    MeteoData,
    ClockData,
    AntennaData,
    IonosphereMaps,
    DORIS,
}

/// GNSS receiver description.
#[derive(Debug)]
pub struct Receiver {
    pub model: String,
    pub sn: String,
}

impl Clone for Receiver {
    fn clone(&self) -> (r: Self)
        ensures
            r == *self,
    {
        Receiver { model: self.model.clone(), sn: self.sn.clone() }
    }
}

/// Receiver antenna description.
#[derive(Debug)]
pub struct Antenna {
    pub model: String,
    pub sn: String,
}

impl Clone for Antenna {
    fn clone(&self) -> (r: Self)
        ensures
            r == *self,
    {
        Antenna { model: self.model.clone(), sn: self.sn.clone() }
    }
}

/// Geodetic marker: its name and, when known, its number in the
/// standardized form.
#[derive(Debug)]
pub struct GeodeticMarker {
    pub name: String,
    pub number: Option<String>,
}

impl Clone for GeodeticMarker {
    fn clone(&self) -> (r: Self)
        ensures
            r == *self,
    {
        let number = match &self.number {
            Some(n) => Some(n.clone()),
            None => None,
        };
        GeodeticMarker { name: self.name.clone(), number }
    }
}

/// Observation specific header fields.
#[derive(Debug, Clone, Copy)]
pub struct ObservationHeader {
    pub timeof_first_obs: Option<Epoch>,
    pub timeof_last_obs: Option<Epoch>,
}

/// Navigation specific header fields: the system time corrections, each as
/// (target time scale, reference time scale).
#[derive(Debug, Clone)]
pub struct NavigationHeader {
    pub time_offsets: Vec<(TimeScale, TimeScale)>,
}

/// The fields of a RINEX header that the reports read.
#[derive(Debug, Clone)]
pub struct RinexHeader {
    pub version: RinexVersion,
    pub rinex_type: RinexType,
    /// Approximate receiver position, ECEF meters.
    pub rx_position: Option<(FloatBits, FloatBits, FloatBits)>,
    pub rcvr: Option<Receiver>,
    pub rcvr_antenna: Option<Antenna>,
    pub geodetic_marker: Option<GeodeticMarker>,
    pub obs: Option<ObservationHeader>,
    pub nav: Option<NavigationHeader>,
}

/// A RINEX header, together with the data source it comes from.
#[derive(Debug, Clone)]
pub struct QcSerializedRINEXHeader {
    pub indexing: QcIndexing,
    pub data: RinexHeader,
}

/// SP3 revisions.
#[derive(Debug, Clone, Copy, PartialEq, Eq, Structural)]
pub enum Sp3Version {
    A,
    B,
    C,
    D,
}

/// SP3 orbit types.
#[derive(Debug, Clone, Copy, PartialEq, Eq, Structural)]
pub enum OrbitType {
    FIT,
    EXT,
    BCT,
    BHN,
    HLM,
}

/// The fields of an SP3 header that the reports read.
#[derive(Debug, Clone)]
pub struct Sp3Header {
    pub version: Sp3Version,
    pub coord_system: String,
    pub orbit_type: OrbitType,
    pub agency: String,
    pub timescale: TimeScale,
}

} // verus!
