//! Text forms of time scales, file revisions and orbit types, as the RINEX,
//! SP3 and time libraries print them.
use crate::header::{OrbitType, RinexVersion, Sp3Version};
use crate::model::{Constellation, TimeScale};
use rinex::prelude::Constellation as C;
use rinex::prelude::TimeScale as LibTimeScale;
use sp3::prelude::OrbitType as LibOrbitType;
use sp3::prelude::Version as LibSp3Version;
use vstd::prelude::*;

verus! {

/// The decimal digit `d` (0 to 9) as a character.
pub open spec fn digit_char(d: nat) -> char {
    (48 + d) as char
}

/// Decimal writing of `n`, without leading zeros.
pub open spec fn decimal(n: nat) -> Seq<char>
    decreases n,
{
    if n < 10 {
        seq![digit_char(n)]
    } else {
        decimal(n / 10).push(digit_char(n % 10))
    }
}

/// How a RINEX revision prints: "major.minor".
pub open spec fn spec_rinex_version_label(v: RinexVersion) -> Seq<char> {
    decimal(v.major as nat) + "."@ + decimal(v.minor as nat)
}

/// Text of a RINEX revision.
///
/// Calls the `Display` implementation of `rinex::prelude::Version`, which
/// writes the major then the minor number in decimal, separated by a dot.
#[verifier::external_body]
pub fn rinex_version_label(v: RinexVersion) -> (s: String)
    ensures
        s@ == spec_rinex_version_label(v),
{
    rinex::prelude::Version::new(v.major, v.minor).to_string()
}

/// How a time scale prints.
pub open spec fn spec_timescale_label(t: TimeScale) -> Seq<char> {
    match t {
        TimeScale::TAI => "TAI"@,
        TimeScale::TT => "TT"@,
        TimeScale::ET => "ET"@,
        TimeScale::TDB => "TDB"@,
        TimeScale::UTC => "UTC"@,
        TimeScale::GPST => "GPST"@,
        TimeScale::GST => "GST"@,
        TimeScale::BDT => "BDT"@,
        TimeScale::QZSST => "QZSST"@,
        TimeScale::TCG => "TCG"@,
        TimeScale::TCB => "TCB"@,
        TimeScale::TL => "TL"@,
        TimeScale::TCL => "TCL"@,
    }
}

/// Text of a time scale.
///
/// Calls the `Display` implementation of `hifitime::TimeScale` (re-exported
/// by `rinex`), which writes the abbreviation of the time scale.
#[verifier::external_body]
pub fn timescale_label(t: TimeScale) -> (s: String)
    ensures
        s@ == spec_timescale_label(t),
{
    let lib = match t {
        TimeScale::TAI => LibTimeScale::TAI, TimeScale::TT => LibTimeScale::TT,
        TimeScale::ET => LibTimeScale::ET, TimeScale::TDB => LibTimeScale::TDB,
        TimeScale::UTC => LibTimeScale::UTC, TimeScale::GPST => LibTimeScale::GPST,
        TimeScale::GST => LibTimeScale::GST, TimeScale::BDT => LibTimeScale::BDT,
        TimeScale::QZSST => LibTimeScale::QZSST, TimeScale::TCG => LibTimeScale::TCG,
        TimeScale::TCB => LibTimeScale::TCB, TimeScale::TL => LibTimeScale::TL,
        TimeScale::TCL => LibTimeScale::TCL,
    };
    lib.to_string()
}

/// How an SP3 revision prints.
pub open spec fn spec_sp3_version_label(v: Sp3Version) -> Seq<char> {
    match v {
        Sp3Version::A => "a"@,
        Sp3Version::B => "b"@,
        Sp3Version::C => "c"@,
        Sp3Version::D => "d"@,
    }
}

/// Text of an SP3 revision.
///
/// Calls the `Display` implementation of `sp3::prelude::Version`, which
/// writes the revision letter in lower case.
#[verifier::external_body]
pub fn sp3_version_label(v: Sp3Version) -> (s: String)
    ensures
        s@ == spec_sp3_version_label(v),
{
    let lib = match v {
        Sp3Version::A => LibSp3Version::A,
        Sp3Version::B => LibSp3Version::B,
        Sp3Version::C => LibSp3Version::C,
        Sp3Version::D => LibSp3Version::D,
    };
    lib.to_string()
}

/// How an orbit type prints.
pub open spec fn spec_orbit_type_label(o: OrbitType) -> Seq<char> {
    match o {
        OrbitType::FIT => "FIT"@,
        OrbitType::EXT => "EXT"@,
        OrbitType::BCT => "BCT"@,
        OrbitType::BHN => "BHN"@,
        OrbitType::HLM => "HLM"@,
    }
}

/// Text of an SP3 orbit type.
///
/// Calls the `Display` implementation of `sp3::prelude::OrbitType`, which
/// writes the three letter acronym of the orbit type.
#[verifier::external_body]
pub fn orbit_type_label(o: OrbitType) -> (s: String)
    ensures
        s@ == spec_orbit_type_label(o),
{
    let lib = match o {
        OrbitType::FIT => LibOrbitType::FIT,
        OrbitType::EXT => LibOrbitType::EXT,
        OrbitType::BCT => LibOrbitType::BCT,
        OrbitType::BHN => LibOrbitType::BHN,
        OrbitType::HLM => LibOrbitType::HLM,
    };
    lib.to_string()
}

/// How a constellation prints: its name and the code of its country.
pub open spec fn spec_constellation_label(c: Constellation) -> Seq<char> {
    match c {
        Constellation::GPS => "GPS (US)"@,
        Constellation::Glonass => "Glonass (RU)"@,
        Constellation::BeiDou => "BeiDou (CH)"@,
        Constellation::QZSS => "QZSS (JP)"@,
        Constellation::Galileo => "Galileo (EU)"@,
        Constellation::IRNSS => "IRNSS (IN)"@,
        Constellation::WAAS => "WAAS (US)"@,
        Constellation::EGNOS => "EGNOS (EU)"@,
        Constellation::MSAS => "MSAS (JP)"@,
        Constellation::GAGAN => "GAGAN (IN)"@,
        Constellation::BDSBAS => "BDSBAS (CH)"@,
        Constellation::KASS => "KASS (KR)"@,
        Constellation::SDCM => "SDCM (RU)"@,
        Constellation::ASBAS => "ASBAS (SA)"@,
        Constellation::SPAN => "SPAN (AUS)"@,
        Constellation::SBAS => "SBAS"@,
        Constellation::AusNZ => "AUS/NZ (AUS)"@,
        Constellation::GBAS => "GBAS (UK)"@,
        Constellation::NSAS => "NSAS (NI)"@,
        Constellation::ASAL => "ASAL (AL)"@,
        Constellation::Mixed => "MIXED"@,
    }
}

/// The GNSS library's constellation type.
#[verifier::external_type_specification]
#[verifier::external_body]
pub struct ExLibConstellation(C);

/// The GNSS library's value for a constellation, variant for variant.
#[verifier::external_body]
pub(crate) fn lib_constellation(c: Constellation) -> C {
    match c {
        Constellation::GPS => C::GPS, Constellation::Glonass => C::Glonass,
        Constellation::BeiDou => C::BeiDou, Constellation::QZSS => C::QZSS,
        Constellation::Galileo => C::Galileo, Constellation::IRNSS => C::IRNSS,
        Constellation::WAAS => C::WAAS, Constellation::EGNOS => C::EGNOS,
        Constellation::MSAS => C::MSAS, Constellation::GAGAN => C::GAGAN,
        Constellation::BDSBAS => C::BDSBAS, Constellation::KASS => C::KASS,
        Constellation::SDCM => C::SDCM, Constellation::ASBAS => C::ASBAS,
        Constellation::SPAN => C::SPAN, Constellation::SBAS => C::SBAS,
        Constellation::AusNZ => C::AusNZ, Constellation::GBAS => C::GBAS,
        Constellation::NSAS => C::NSAS, Constellation::ASAL => C::ASAL,
        Constellation::Mixed => C::Mixed,
    }
}

/// Text of a constellation.
///
/// Calls the `Display` implementation of `gnss::prelude::Constellation`
/// (re-exported by `rinex`), which writes the constellation's name followed
/// by its country code in parentheses ("SBAS" and "MIXED" have none).
#[verifier::external_body]
pub fn constellation_label(c: Constellation) -> (s: String)
    ensures
        s@ == spec_constellation_label(c),
{
    lib_constellation(c).to_string()
}

} // verus!
