//! Report of one SP3 file: what its header announces, which kinds of data
//! it holds, and its satellites.
use crate::header::Sp3Header;
use crate::html::{html_rows_view, CellView, HtmlCell, HtmlRow};
use crate::labels::{
    constellation_label, orbit_type_label, sp3_version_label, spec_constellation_label,
    spec_orbit_type_label, spec_sp3_version_label, spec_timescale_label, timescale_label,
};
use crate::model::{Constellation, SV};
use crate::order::string_texts;
use crate::pdf::join;
use crate::rendering::all_ascii;
use crate::sampling::SamplingReport;
use crate::selector::views_of;
use crate::sorting::{leq_by, sort_keys};
use vstd::prelude::*;

verus! {

/// What `text` reads in upper case.
pub uninterp spec fn uppercased(text: Seq<char>) -> Seq<char>;

/// The ASCII upper case of a character: 'a' to 'z' become 'A' to 'Z', any
/// other character is kept.
pub open spec fn ascii_upper(c: char) -> char {
    if 'a' <= c <= 'z' {
        ((c as u32) - 32) as char
    } else {
        c
    }
}

/// Upper case version of a text.
///
/// Calls `str::to_uppercase`, whose result depends on the text alone; it is
/// given a name here. Of an ASCII text, the upper case maps 'a' to 'z' to
/// 'A' to 'Z' and keeps every other character, as Unicode's upper case
/// mapping does on ASCII; nothing more is claimed.
#[verifier::external_body]
fn uppercase_text(text: &str) -> (r: String)
    ensures
        r@ == uppercased(text@),
        all_ascii(text@) ==> r@ == text@.map_values(|c: char| ascii_upper(c)),
{
    text.to_uppercase()
}

/// How a satellite prints.
pub uninterp spec fn sv_text(sv: SV) -> Seq<char>;

/// The letter that stands for a constellation that is not an augmentation
/// system; none for augmentation systems.
pub open spec fn constellation_letter(c: Constellation) -> Option<char> {
    match c {
        Constellation::GPS => Some('G'),
        Constellation::Glonass => Some('R'),
        Constellation::Galileo => Some('E'),
        Constellation::BeiDou => Some('C'),
        Constellation::QZSS => Some('J'),
        Constellation::IRNSS => Some('I'),
        Constellation::Mixed => Some('M'),
        _ => None,
    }
}

/// The decimal digit `d` (below ten).
pub open spec fn digit(d: int) -> char {
    (d + 48) as char
}

/// A PRN in decimal, on at least two digits.
pub open spec fn prn_text(prn: u8) -> Seq<char> {
    let n = prn as int;
    if n < 10 {
        seq!['0', digit(n)]
    } else if n < 100 {
        seq![digit(n / 10), digit(n % 10)]
    } else {
        seq![digit(n / 100), digit((n / 10) % 10), digit(n % 10)]
    }
}

/// Text of a satellite.
///
/// Calls the `Display` implementation of `gnss::prelude::SV` (re-exported
/// by `rinex`). For a satellite of a constellation that is not an
/// augmentation system, that is the constellation letter followed by the
/// PRN on two digits at least. For an augmentation satellite it is the
/// satellite's name when the GNSS library knows it, which depends on the
/// satellite alone; that case is given a name here, and no more is claimed
/// of it.
#[verifier::external_body]
pub fn sv_label(sv: SV) -> (s: String)
    ensures
        s@ == sv_text(sv),
        constellation_letter(sv.constellation) is Some ==> s@ == seq![
            constellation_letter(sv.constellation)->0,
        ] + prn_text(sv.prn),
{
    let c = crate::labels::lib_constellation(sv.constellation);
    rinex::prelude::SV::new(c, sv.prn).to_string()
}

/// Which kinds of data an SP3 file holds, and its satellites.
#[derive(Debug, Clone)]
pub struct Sp3Content {
    pub has_clock: bool,
    pub has_velocity: bool,
    pub has_clock_drift: bool,
    pub uses_prediction: bool,
    pub has_maneuvers: bool,
    pub has_clock_events: bool,
    pub satellites: Vec<SV>,
}

/// Report of one SP3 file.
#[derive(Debug)]
pub struct FileReport {
    pub agency: String,
    pub revision: String,
    pub coord_system: String,
    pub orbit_fit: String,
    pub time_scale: String,
    pub has_clock: bool,
    pub has_velocity: bool,
    pub has_clock_drift: bool,
    pub uses_prediction: bool,
    pub has_maneuvers: bool,
    pub has_clock_events: bool,
    pub satellites: Vec<SV>,
    pub sampling: SamplingReport,
    pub constellations: Vec<Constellation>,
}

/// Copy of a list of satellites.
fn copy_svs(v: &Vec<SV>) -> (r: Vec<SV>)
    ensures
        r@ == v@,
{
    let mut r: Vec<SV> = Vec::new();
    let mut i: usize = 0;
    while i < v.len()
        invariant
            i <= v@.len(),
            r@ == v@.subrange(0, i as int),
        decreases v@.len() - i,
    {
        r.push(v[i]);
        proof {
            assert(r@ =~= v@.subrange(0, i + 1));
        }
        i = i + 1;
    }
    proof {
        assert(v@.subrange(0, v@.len() as int) =~= v@);
    }
    r
}

impl FileReport {
    /// The report of an SP3 file, from its header and what it holds. The
    /// revision is the header's revision letter in upper case; no
    /// constellation is listed.
    pub fn new(header: &Sp3Header, content: &Sp3Content) -> (r: Self)
        ensures
            r.agency == header.agency,
            r.revision@ == spec_sp3_version_label(header.version).map_values(
                |c: char| ascii_upper(c),
            ),
            r.coord_system == header.coord_system,
            r.orbit_fit@ == spec_orbit_type_label(header.orbit_type),
            r.time_scale@ == spec_timescale_label(header.timescale),
            r.has_clock == content.has_clock,
            r.has_velocity == content.has_velocity,
            r.has_clock_drift == content.has_clock_drift,
            r.uses_prediction == content.uses_prediction,
            r.has_maneuvers == content.has_maneuvers,
            r.has_clock_events == content.has_clock_events,
            r.satellites@ == content.satellites@,
            r.constellations@.len() == 0,
    {
        let version = sp3_version_label(header.version);
        proof {
            reveal_strlit("a");
            reveal_strlit("b");
            reveal_strlit("c");
            reveal_strlit("d");
            assert(all_ascii(version@));
        }
        FileReport {
            agency: header.agency.clone(),
            revision: uppercase_text(version.as_str()),
            coord_system: header.coord_system.clone(),
            orbit_fit: orbit_type_label(header.orbit_type),
            time_scale: timescale_label(header.timescale),
            has_clock: content.has_clock,
            has_velocity: content.has_velocity,
            has_clock_drift: content.has_clock_drift,
            uses_prediction: content.uses_prediction,
            has_maneuvers: content.has_maneuvers,
            has_clock_events: content.has_clock_events,
            satellites: copy_svs(&content.satellites),
            sampling: SamplingReport {},
            constellations: Vec::new(),
        }
    }
}

/// The strings of `v` separated by `sep`.
pub fn join_strings(v: &Vec<String>, sep: &str) -> (s: String)
    ensures
        s@ == join(string_texts(v@), sep@),
{
    let ghost texts = string_texts(v@);
    let mut s = String::new();
    let mut i: usize = 0;
    proof {
        assert(texts.subrange(0, 0) =~= Seq::<Seq<char>>::empty());
    }
    while i < v.len()
        invariant
            i <= v@.len(),
            texts == string_texts(v@),
            s@ == join(texts.subrange(0, i as int), sep@),
        decreases v@.len() - i,
    {
        if i > 0 {
            s.append(sep);
        }
        s.append(v[i].as_str());
        proof {
            let sub = texts.subrange(0, i + 1);
            assert(sub.drop_last() =~= texts.subrange(0, i as int));
            assert(sub.last() == v@[i as int]@);
            if i == 0 {
                assert(s@ =~= v@[0]@);
            }
        }
        i = i + 1;
    }
    proof {
        assert(texts.subrange(0, texts.len() as int) =~= texts);
    }
    s
}

/// The satellites of `s` in increasing order (by PRN, then constellation),
/// separated by ", ".
pub open spec fn satellites_text(s: Seq<SV>) -> Seq<char> {
    join(s.sort_by(leq_by::<SV>()).map_values(|x: SV| sv_text(x)), ", "@)
}

/// The constellations of `s` in increasing order, separated by ", ".
pub open spec fn constellations_text(s: Seq<Constellation>) -> Seq<char> {
    join(s.sort_by(leq_by::<Constellation>()).map_values(|c: Constellation| spec_constellation_label(c)), ", "@)
}

/// Text of a flag as Rust prints it.
pub open spec fn flag_text(b: bool) -> Seq<char> {
    if b {
        "true"@
    } else {
        "false"@
    }
}

/// The rows of the HTML report of an SP3 file.
pub open spec fn file_report_rows(r: FileReport) -> Seq<(Seq<char>, CellView)> {
    seq![
        ("Agency"@, CellView::Text(r.agency@)),
        ("Revision"@, CellView::Text(r.revision@)),
        ("Timescale"@, CellView::Text(r.time_scale@)),
        ("Reference Frame"@, CellView::Text(r.coord_system@)),
        ("Fit Algorithm"@, CellView::Text(r.orbit_fit@)),
        ("Has Precise Velocity"@, CellView::Text(flag_text(r.has_velocity))),
        ("Has Precise Clock"@, CellView::Text(flag_text(r.has_clock))),
        ("Has Precise Clock Drift"@, CellView::Text(flag_text(r.has_clock_drift))),
        ("Predicted positions"@, CellView::Text(flag_text(r.uses_prediction))),
        ("Has Precise Clock Drift"@, CellView::Text(flag_text(r.has_clock_drift))),
        ("SV Maneuvers"@, CellView::Text(flag_text(r.has_maneuvers))),
        ("SV Clock Events"@, CellView::Text(flag_text(r.has_clock_events))),
        ("Constellations"@, CellView::Text(constellations_text(r.constellations@))),
        ("Satellites"@, CellView::Text(satellites_text(r.satellites@))),
        ("Sampling"@, CellView::Sampling(r.sampling)),
    ]
}

/// "true" when `b` holds, "false" otherwise.
pub open spec fn shown_flag(b: bool) -> CellView {
    CellView::Text(if b { "true"@ } else { "false"@ })
}

/// In the report of an SP3 file, each data-kind row reads "true" exactly
/// when the file holds that kind of data: velocities, clock offsets, clock
/// drifts (the drift row appears twice), predicted positions, maneuvers and
/// clock events, each row after its own flag alone.
pub proof fn law_data_kind_rows(r: FileReport)
    ensures
        file_report_rows(r).len() == 15,
        file_report_rows(r)[5] == ("Has Precise Velocity"@, shown_flag(r.has_velocity)),
        file_report_rows(r)[6] == ("Has Precise Clock"@, shown_flag(r.has_clock)),
        file_report_rows(r)[7] == ("Has Precise Clock Drift"@, shown_flag(r.has_clock_drift)),
        file_report_rows(r)[8] == ("Predicted positions"@, shown_flag(r.uses_prediction)),
        file_report_rows(r)[9] == ("Has Precise Clock Drift"@, shown_flag(r.has_clock_drift)),
        file_report_rows(r)[10] == ("SV Maneuvers"@, shown_flag(r.has_maneuvers)),
        file_report_rows(r)[11] == ("SV Clock Events"@, shown_flag(r.has_clock_events)),
{
}

/// In the report of an SP3 file, the first rows give the header's agency,
/// revision, time scale, reference frame and fit algorithm, each under its
/// own heading, and the last ones the constellations, the satellites and the
/// sampling.
pub proof fn law_header_rows(r: FileReport)
    ensures
        file_report_rows(r)[0] == ("Agency"@, CellView::Text(r.agency@)),
        file_report_rows(r)[1] == ("Revision"@, CellView::Text(r.revision@)),
        file_report_rows(r)[2] == ("Timescale"@, CellView::Text(r.time_scale@)),
        file_report_rows(r)[3] == ("Reference Frame"@, CellView::Text(r.coord_system@)),
        file_report_rows(r)[4] == ("Fit Algorithm"@, CellView::Text(r.orbit_fit@)),
        file_report_rows(r)[12].0 == "Constellations"@,
        file_report_rows(r)[13] == ("Satellites"@, CellView::Text(satellites_text(r.satellites@))),
        file_report_rows(r)[14] == ("Sampling"@, CellView::Sampling(r.sampling)),
{
}

/// Text of a flag as Rust prints it.
fn flag_string(b: bool) -> (s: String)
    ensures
        s@ == flag_text(b),
{
    if b {
        String::from_str("true")
    } else {
        String::from_str("false")
    }
}

/// A row holding a text.
fn text_row(header: &str, text: String) -> (r: HtmlRow)
    ensures
        r@ == (header@, CellView::Text(text@)),
{
    HtmlRow { header: String::from_str(header), cell: HtmlCell::Text(text) }
}

/// The satellites in increasing order, separated by ", ".
fn satellites_string(v: &Vec<SV>) -> (s: String)
    ensures
        s@ == satellites_text(v@),
{
    let sorted = sort_keys(v);
    proof {
        assert(views_of(sorted@) =~= sorted@);
        assert(views_of(v@) =~= v@);
    }
    let mut labels: Vec<String> = Vec::new();
    let mut i: usize = 0;
    while i < sorted.len()
        invariant
            i <= sorted@.len(),
            string_texts(labels@) == sorted@.subrange(0, i as int).map_values(|x: SV| sv_text(x)),
        decreases sorted@.len() - i,
    {
        let ghost before = string_texts(labels@);
        let label = sv_label(sorted[i]);
        labels.push(label);
        proof {
            assert(string_texts(labels@) =~= before.push(sv_text(sorted@[i as int])));
            assert(sorted@.subrange(0, i + 1).map_values(|x: SV| sv_text(x)) =~= sorted@.subrange(
                0,
                i as int,
            ).map_values(|x: SV| sv_text(x)).push(sv_text(sorted@[i as int])));
        }
        i = i + 1;
    }
    proof {
        assert(sorted@.subrange(0, sorted@.len() as int) =~= sorted@);
    }
    join_strings(&labels, ", ")
}

/// The constellations in increasing order, separated by ", ".
fn constellations_string(v: &Vec<Constellation>) -> (s: String)
    ensures
        s@ == constellations_text(v@),
{
    let sorted = sort_keys(v);
    proof {
        assert(views_of(sorted@) =~= sorted@);
        assert(views_of(v@) =~= v@);
    }
    let mut labels: Vec<String> = Vec::new();
    let mut i: usize = 0;
    while i < sorted.len()
        invariant
            i <= sorted@.len(),
            string_texts(labels@) == sorted@.subrange(0, i as int).map_values(
                |c: Constellation| spec_constellation_label(c),
            ),
        decreases sorted@.len() - i,
    {
        let ghost before = string_texts(labels@);
        let label = constellation_label(sorted[i]);
        labels.push(label);
        proof {
            assert(string_texts(labels@) =~= before.push(spec_constellation_label(sorted@[i as int])));
            assert(sorted@.subrange(0, i + 1).map_values(|c: Constellation| spec_constellation_label(c))
                =~= sorted@.subrange(0, i as int).map_values(
                |c: Constellation| spec_constellation_label(c),
            ).push(spec_constellation_label(sorted@[i as int])));
        }
        i = i + 1;
    }
    proof {
        assert(sorted@.subrange(0, sorted@.len() as int) =~= sorted@);
    }
    join_strings(&labels, ", ")
}

impl FileReport {
    /// The rows of the HTML report of this SP3 file.
    pub fn render(&self) -> (rows: Vec<HtmlRow>)
        ensures
            html_rows_view(rows@) == file_report_rows(*self),
            rows@.len() == 15,
            rows@[5]@ == ("Has Precise Velocity"@, shown_flag(self.has_velocity)),
            rows@[6]@ == ("Has Precise Clock"@, shown_flag(self.has_clock)),
    {
        let mut rows: Vec<HtmlRow> = Vec::new();
        rows.push(text_row("Agency", self.agency.clone()));
        rows.push(text_row("Revision", self.revision.clone()));
        rows.push(text_row("Timescale", self.time_scale.clone()));
        rows.push(text_row("Reference Frame", self.coord_system.clone()));
        rows.push(text_row("Fit Algorithm", self.orbit_fit.clone()));
        rows.push(text_row("Has Precise Velocity", flag_string(self.has_velocity)));
        rows.push(text_row("Has Precise Clock", flag_string(self.has_clock)));
        rows.push(text_row("Has Precise Clock Drift", flag_string(self.has_clock_drift)));
        rows.push(text_row("Predicted positions", flag_string(self.uses_prediction)));
        rows.push(text_row("Has Precise Clock Drift", flag_string(self.has_clock_drift)));
        rows.push(text_row("SV Maneuvers", flag_string(self.has_maneuvers)));
        rows.push(text_row("SV Clock Events", flag_string(self.has_clock_events)));
        rows.push(text_row("Constellations", constellations_string(&self.constellations)));
        rows.push(text_row("Satellites", satellites_string(&self.satellites)));
        rows.push(HtmlRow { header: String::from_str("Sampling"), cell: HtmlCell::Sampling(self.sampling) });
        proof {
            assert(html_rows_view(rows@) =~= file_report_rows(*self));
            law_data_kind_rows(*self);
            assert(rows@[5]@ == html_rows_view(rows@)[5]);
            assert(rows@[6]@ == html_rows_view(rows@)[6]);
        }
        rows
    }
}

} // verus!
