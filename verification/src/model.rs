//! Plain-value models of the GNSS notions that the reports read:
//! constellations, satellites, carriers, time scales, instants and durations,
//! data sources and product types.
use crate::keyed::KeyView;
use vstd::prelude::*;

verus! {

/// GNSS constellations (and geostationary augmentation services).
#[derive(Clone, Copy, Debug, PartialEq, Eq, Structural, Hash, PartialOrd, Ord)]
pub enum Constellation {
    GPS,
    Glonass,
    BeiDou,
    QZSS,
    Galileo,
    IRNSS,
    WAAS,
    EGNOS,
    MSAS,
    GAGAN,
    BDSBAS,
    KASS,
    SDCM,
    ASBAS,
    SPAN,
    SBAS,
    AusNZ,
    GBAS,
    NSAS,
    ASAL,
    Mixed,
}

impl View for Constellation {
    type V = Constellation;

    open spec fn view(&self) -> Constellation {
        *self
    }
}

impl KeyView for Constellation {
    fn same_key(&self, other: &Self) -> (b: bool) {
        *self == *other
    }

    fn copy_key(&self) -> (r: Self) {
        *self
    }
}

/// A satellite vehicle: a PRN number within a constellation.
#[derive(Clone, Copy, Debug, PartialEq, Eq, Structural, Hash, PartialOrd, Ord)]
pub struct SV {
    pub prn: u8,
    pub constellation: Constellation,
}

impl View for SV {
    type V = SV;

    open spec fn view(&self) -> SV {
        *self
    }
}

impl KeyView for SV {
    fn same_key(&self, other: &Self) -> (b: bool) {
        *self == *other
    }

    fn copy_key(&self) -> (r: Self) {
        *self
    }
}

/// Time scales in which instants are expressed.
#[derive(Clone, Copy, Debug, PartialEq, Eq, Structural, Hash, PartialOrd, Ord)]
pub enum TimeScale {
    TAI,
    TT,
    ET,
    TDB,
    UTC,
    GPST,
    GST,
    BDT,
    QZSST,
    TCG,
    TCB,
    TL,
    TCL,
}

/// Largest magnitude, in nanoseconds, of an instant or a duration that the
/// reports handle (well beyond the range of any GNSS time tag).
pub const MAX_TIME_NS: i128 = 0x1_0000_0000_0000_0000_0000_0000i128;

/// An instant: nanoseconds elapsed in TAI since the reference epoch, and the
/// time scale in which it was first expressed. Two instants are ordered and
/// compared by their TAI count alone.
#[derive(Clone, Copy, Debug)]
pub struct Epoch {
    pub tai_ns: i128,
    pub time_scale: TimeScale,
}

impl View for Epoch {
    type V = i128;

    open spec fn view(&self) -> i128 {
        self.tai_ns
    }
}

impl KeyView for Epoch {
    fn same_key(&self, other: &Self) -> (b: bool) {
        self.tai_ns == other.tai_ns
    }

    fn copy_key(&self) -> (r: Self) {
        *self
    }
}

impl Epoch {
    /// True when the instant lies within the handled range.
    pub open spec fn in_range(self) -> bool {
        -MAX_TIME_NS <= self.tai_ns <= MAX_TIME_NS
    }

    /// The default instant: the reference epoch, in TAI.
    pub fn reference() -> (e: Epoch)
        ensures
            e.tai_ns == 0,
            e.time_scale == TimeScale::TAI,
    {
        Epoch { tai_ns: 0, time_scale: TimeScale::TAI }
    }

    /// True when `self` comes strictly before `other`.
    pub fn before(&self, other: &Epoch) -> (b: bool)
        ensures
            b == (self.tai_ns < other.tai_ns),
    {
        self.tai_ns < other.tai_ns
    }

    /// Elapsed time from `earlier` to `self`.
    pub fn since(&self, earlier: &Epoch) -> (d: Duration)
        requires
            self.in_range(),
            earlier.in_range(),
        ensures
            d.total_ns == self.tai_ns - earlier.tai_ns,
    {
        Duration { total_ns: self.tai_ns - earlier.tai_ns }
    }
}

/// A signed duration, in nanoseconds.
#[derive(Clone, Copy, Debug, PartialEq, Eq, Structural, Hash, PartialOrd, Ord)]
pub struct Duration {
    pub total_ns: i128,
}

impl View for Duration {
    type V = i128;

    open spec fn view(&self) -> i128 {
        self.total_ns
    }
}

impl KeyView for Duration {
    fn same_key(&self, other: &Self) -> (b: bool) {
        self.total_ns == other.total_ns
    }

    fn copy_key(&self) -> (r: Self) {
        *self
    }
}

impl Duration {
    /// The null duration.
    pub fn zero() -> (d: Duration)
        ensures
            d.total_ns == 0,
    {
        Duration { total_ns: 0 }
    }
}

/// Signal carriers.
#[derive(Clone, Copy, Debug, PartialEq, Eq, Structural, Hash, PartialOrd, Ord)]
pub enum Carrier {
    L1,
    L2,
    L5,
    L6,
    G1(Option<i8>),
    G1a,
    G2(Option<i8>),
    G2a,
    G3,
    E1,
    E5a,
    E5b,
    E5a5b,
    E6,
    B1,
    B1c,
    B1a,
    B2a,
    B2,
    B2b,
    B2a2b,
    B3,
    B3a,
    S,
    S1,
    U2,
}

impl View for Carrier {
    type V = Carrier;

    open spec fn view(&self) -> Carrier {
        *self
    }
}

impl KeyView for Carrier {
    fn same_key(&self, other: &Self) -> (b: bool) {
        *self == *other
    }

    fn copy_key(&self) -> (r: Self) {
        *self
    }
}

/// A real number that the reports carry without computing on it, kept as
/// the IEEE-754 binary64 bit pattern of the value.
#[derive(Clone, Copy, Debug, PartialEq, Eq, Structural, Hash)]
pub struct FloatBits {
    pub bits: u64,
}

/// How a data source is identified.
#[derive(Clone, Debug, Hash, PartialEq, Eq, PartialOrd, Ord)]
pub enum QcIndexing {
    NoIndexing,
    Agency(String),
    Custom(String),
    GeodeticMarker(String),
    GnssReceiver(String),
    Operator(String),
    RxAntenna(String),
}

impl View for QcIndexing {
    type V = (u8, Seq<char>);

    open spec fn view(&self) -> (u8, Seq<char>) {
        match self {
            QcIndexing::NoIndexing => (0u8, Seq::empty()),
            QcIndexing::Agency(s) => (1u8, s@),
            QcIndexing::Custom(s) => (2u8, s@),
            QcIndexing::GeodeticMarker(s) => (3u8, s@),
            QcIndexing::GnssReceiver(s) => (4u8, s@),
            QcIndexing::Operator(s) => (5u8, s@),
            QcIndexing::RxAntenna(s) => (6u8, s@),
        }
    }
}

impl QcIndexing {
    /// Rank of the variant, in declaration order.
    pub fn tag(&self) -> (t: u8)
        ensures
            t == self@.0,
    {
        match self {
            QcIndexing::NoIndexing => 0,
            QcIndexing::Agency(_) => 1,
            QcIndexing::Custom(_) => 2,
            QcIndexing::GeodeticMarker(_) => 3,
            QcIndexing::GnssReceiver(_) => 4,
            QcIndexing::Operator(_) => 5,
            QcIndexing::RxAntenna(_) => 6,
        }
    }

    /// The identifier that the source is indexed by ("None" when unindexed).
    pub open spec fn spec_label(self) -> Seq<char> {
        match self {
            QcIndexing::NoIndexing => "None"@,
            QcIndexing::Agency(s) => s@,
            QcIndexing::Custom(s) => s@,
            QcIndexing::GeodeticMarker(s) => s@,
            QcIndexing::GnssReceiver(s) => s@,
            QcIndexing::Operator(s) => s@,
            QcIndexing::RxAntenna(s) => s@,
        }
    }

    /// The identifier that the source is indexed by ("None" when unindexed).
    pub fn label(&self) -> (s: String)
        ensures
            s@ == self.spec_label(),
    {
        match self {
            QcIndexing::NoIndexing => {
String::from_str("None")
            },
            QcIndexing::Agency(s) => s.clone(),
            QcIndexing::Custom(s) => s.clone(),
            QcIndexing::GeodeticMarker(s) => s.clone(),
            QcIndexing::GnssReceiver(s) => s.clone(),
            QcIndexing::Operator(s) => s.clone(),
            QcIndexing::RxAntenna(s) => s.clone(),
        }
    }

    /// Name of the kind of identifier, as a PDF summary shows it.
    pub open spec fn spec_kind_name(self) -> Seq<char> {
        match self {
            QcIndexing::Agency(_) => "Agency"@,
            QcIndexing::Custom(_) => "Custom"@,
            QcIndexing::GeodeticMarker(_) => "Marker"@,
            QcIndexing::GnssReceiver(_) => "GNSS Receiver"@,
            QcIndexing::NoIndexing => "None"@,
            QcIndexing::Operator(_) => "Operator"@,
            QcIndexing::RxAntenna(_) => "GNSS Antenna"@,
        }
    }

    /// Name of the kind of identifier, as a PDF summary shows it.
    pub fn kind_name(&self) -> (s: &'static str)
        ensures
            s@ == self.spec_kind_name(),
    {
        match self {
            QcIndexing::Agency(_) => "Agency",
            QcIndexing::Custom(_) => "Custom",
            QcIndexing::GeodeticMarker(_) => "Marker",
            QcIndexing::GnssReceiver(_) => "GNSS Receiver",
            QcIndexing::NoIndexing => "None",
            QcIndexing::Operator(_) => "Operator",
            QcIndexing::RxAntenna(_) => "GNSS Antenna",
        }
    }
}

impl KeyView for QcIndexing {
    fn same_key(&self, other: &Self) -> (b: bool) {
        match (self, other) {
            (QcIndexing::NoIndexing, QcIndexing::NoIndexing) => true,
            (QcIndexing::Agency(a), QcIndexing::Agency(b)) => *a == *b,
            (QcIndexing::Custom(a), QcIndexing::Custom(b)) => *a == *b,
            (QcIndexing::GeodeticMarker(a), QcIndexing::GeodeticMarker(b)) => *a == *b,
            (QcIndexing::GnssReceiver(a), QcIndexing::GnssReceiver(b)) => *a == *b,
            (QcIndexing::Operator(a), QcIndexing::Operator(b)) => *a == *b,
            (QcIndexing::RxAntenna(a), QcIndexing::RxAntenna(b)) => *a == *b,
            _ => false,
        }
    }

    fn copy_key(&self) -> (r: Self) {
        match self {
            QcIndexing::NoIndexing => QcIndexing::NoIndexing,
            QcIndexing::Agency(s) => QcIndexing::Agency(s.clone()),
            QcIndexing::Custom(s) => QcIndexing::Custom(s.clone()),
            QcIndexing::GeodeticMarker(s) => QcIndexing::GeodeticMarker(s.clone()),
            QcIndexing::GnssReceiver(s) => QcIndexing::GnssReceiver(s.clone()),
            QcIndexing::Operator(s) => QcIndexing::Operator(s.clone()),
            QcIndexing::RxAntenna(s) => QcIndexing::RxAntenna(s.clone()),
        }
    }
}

/// Kinds of input products.
#[derive(Clone, Copy, Debug, PartialEq, Eq, Structural, Hash, PartialOrd, Ord)]
pub enum QcProductType {
    Observation,
    MeteoObservation,
    DORIS,
    BroadcastNavigation,
    PreciseClock,
    IONEX,
    ANTEX,
    PreciseOrbit,
}

impl QcProductType {
    /// True for the products that come in RINEX files (all but SP3 orbits).
    pub open spec fn spec_is_rinex_product(self) -> bool {
        self != QcProductType::PreciseOrbit
    }

    /// True for the products that come in RINEX files (all but SP3 orbits).
    pub fn is_rinex_product(&self) -> (b: bool)
        ensures
            b == self.spec_is_rinex_product(),
    {
        !matches!(self, QcProductType::PreciseOrbit)
    }

    /// Readable name of the product type.
    pub open spec fn spec_label(self) -> Seq<char> {
        match self {
            QcProductType::Observation => "Observation"@,
            QcProductType::MeteoObservation => "Meteo"@,
            QcProductType::DORIS => "DORIS"@,
            QcProductType::BroadcastNavigation => "Broadcast Navigation"@,
            QcProductType::PreciseClock => "Precise Clock"@,
            QcProductType::IONEX => "IONEX"@,
            QcProductType::ANTEX => "ANTEX"@,
            QcProductType::PreciseOrbit => "Precise Orbit"@,
        }
    }

    /// Readable name of the product type.
    pub fn label(&self) -> (s: &'static str)
        ensures
            s@ == self.spec_label(),
    {
        match self {
            QcProductType::Observation => "Observation",
            QcProductType::MeteoObservation => "Meteo",
            QcProductType::DORIS => "DORIS",
            QcProductType::BroadcastNavigation => "Broadcast Navigation",
            QcProductType::PreciseClock => "Precise Clock",
            QcProductType::IONEX => "IONEX",
            QcProductType::ANTEX => "ANTEX",
            QcProductType::PreciseOrbit => "Precise Orbit",
        }
    }
}

/// Describes one input file: its product type, how it is indexed, its name.
#[derive(Clone, Debug, Hash, PartialEq, Eq, PartialOrd, Ord)]
pub struct QcSourceDescriptor {
    pub product_type: QcProductType,
    pub indexing: QcIndexing,
    pub filename: String,
}

impl View for QcSourceDescriptor {
    type V = (QcProductType, (u8, Seq<char>), Seq<char>);

    open spec fn view(&self) -> (QcProductType, (u8, Seq<char>), Seq<char>) {
        (self.product_type, self.indexing@, self.filename@)
    }
}

impl KeyView for QcSourceDescriptor {
    fn same_key(&self, other: &Self) -> (b: bool) {
        self.product_type == other.product_type && self.indexing.same_key(&other.indexing)
            && self.filename == other.filename
    }

    fn copy_key(&self) -> (r: Self) {
        QcSourceDescriptor {
            product_type: self.product_type,
            indexing: self.indexing.copy_key(),
            filename: self.filename.clone(),
        }
    }
}

/// A reference frame: the identifiers of its ephemeris center and of its
/// orientation, whether it is held inertially fixed, its gravity parameter
/// (km³/s²) and the shape of its geoid (semi-major equatorial,
/// semi-minor equatorial and polar radii, km) when defined, and the instant
/// its orientation is frozen at, if any.
#[derive(Clone, Copy, Debug)]
pub struct Frame {
    pub ephemeris_id: i32,
    pub orientation_id: i32,
    pub force_inertial: bool,
    pub mu_km3_s2: Option<FloatBits>,
    pub shape: Option<(FloatBits, FloatBits, FloatBits)>,
    pub frozen_epoch: Option<Epoch>,
}

/// A reference position: ECEF coordinates in meters, the instant they refer
/// to and the ECEF frame they are expressed in, when these are known.
#[derive(Clone, Copy, Debug)]
pub struct QcReferencePosition {
    pub x_ecef_m: FloatBits,
    pub y_ecef_m: FloatBits,
    pub z_ecef_m: FloatBits,
    pub epoch: Option<Epoch>,
    pub frame: Option<Frame>,
}

} // verus!
