//! What the HTML renditions show, as plain values: the rows of the summary
//! tables, the order of the files, sources and constellations, and the
//! element identifiers that tie them together.
use crate::keyed::KeyView;
use crate::labels::{
    constellation_label, rinex_version_label, sp3_version_label, spec_constellation_label,
    spec_rinex_version_label, spec_sp3_version_label, spec_timescale_label, timescale_label,
};
use crate::model::{
    Constellation, QcIndexing, QcProductType, QcReferencePosition, QcSourceDescriptor, TimeScale,
};
use crate::observations::QcObservationsReport;
use crate::order::{sort_pairs, sorted_pairs};
use crate::orbit_proj::{QcOrbitProjections, QcOrbitProjectionsKey};
use crate::rtk::QcRTKSummary;
use crate::sampling::SamplingReport;
use crate::selector::{choice_form, is_choice_form, views_of, RadioOption};
use crate::sorting::{is_increasing_listing, sorted_distinct, sorted_map_keys};
use crate::summaries::{QcContextSummary, QcRINEXFileSummary, QcSP3FileSummary};
use vstd::prelude::*;

verus! {

/// The content of a table row.
#[derive(Debug)]
pub enum HtmlCell {
    /// A text.
    Text(String),
    /// A nested row: its header and its text.
    Nested(String, String),
    /// A position, which the writer formats.
    Position(QcReferencePosition),
    /// A sampling report, which the writer renders.
    Sampling(SamplingReport),
}

/// A table row: a header and its content.
#[derive(Debug)]
pub struct HtmlRow {
    pub header: String,
    pub cell: HtmlCell,
}

/// What a row content shows.
pub enum CellView {
    Text(Seq<char>),
    Nested(Seq<char>, Seq<char>),
    Position(QcReferencePosition),
    Sampling(SamplingReport),
}

impl View for HtmlRow {
    type V = (Seq<char>, CellView);

    open spec fn view(&self) -> (Seq<char>, CellView) {
        (
            self.header@,
            match self.cell {
                HtmlCell::Text(t) => CellView::Text(t@),
                HtmlCell::Nested(h, t) => CellView::Nested(h@, t@),
                HtmlCell::Position(p) => CellView::Position(p),
                HtmlCell::Sampling(r) => CellView::Sampling(r),
            },
        )
    }
}

/// What a list of rows shows.
pub open spec fn html_rows_view(rows: Seq<HtmlRow>) -> Seq<(Seq<char>, CellView)> {
    rows.map_values(|r: HtmlRow| r@)
}

/// Appends a row holding a text.
fn push_text_row(rows: &mut Vec<HtmlRow>, header: &str, text: String)
    ensures
        html_rows_view(final(rows)@) == html_rows_view(old(rows)@).push(
            (header@, CellView::Text(text@)),
        ),
{
    let ghost t = text@;
    rows.push(HtmlRow { header: String::from_str(header), cell: HtmlCell::Text(text) });
    proof {
        assert(html_rows_view(rows@) =~= html_rows_view(old(rows)@).push((header@, CellView::Text(t))));
    }
}

/// Appends a row holding a nested row.
fn push_nested_row(rows: &mut Vec<HtmlRow>, header: &str, sub: &str, text: String)
    ensures
        html_rows_view(final(rows)@) == html_rows_view(old(rows)@).push(
            (header@, CellView::Nested(sub@, text@)),
        ),
{
    let ghost t = text@;
    rows.push(
        HtmlRow {
            header: String::from_str(header),
            cell: HtmlCell::Nested(String::from_str(sub), text),
        },
    );
    proof {
        assert(html_rows_view(rows@) =~= html_rows_view(old(rows)@).push(
            (header@, CellView::Nested(sub@, t)),
        ));
    }
}

/// Text of a flag as Rust prints it ("true" or "false").
pub open spec fn bool_text(b: bool) -> Seq<char> {
    if b {
        "true"@
    } else {
        "false"@
    }
}

/// Text of a flag as Rust prints it ("true" or "false").
fn bool_string(b: bool) -> (s: String)
    ensures
        s@ == bool_text(b),
{
    if b {
        String::from_str("true")
    } else {
        String::from_str("false")
    }
}

/// "target/reference, " for each system time correction, in increasing
/// order, one after the other.
pub open spec fn corrections_text(c: Seq<(TimeScale, TimeScale)>) -> Seq<char>
    decreases c.len(),
{
    if c.len() == 0 {
        Seq::empty()
    } else {
        corrections_text(c.drop_last()) + spec_timescale_label(c.last().0) + "/"@
            + spec_timescale_label(c.last().1) + ", "@
    }
}

/// The position row, when the file has a reference position.
pub open spec fn position_html_rows(p: Option<QcReferencePosition>) -> Seq<(Seq<char>, CellView)> {
    match p {
        Some(p) => seq![("Reference position"@, CellView::Position(p))],
        None => Seq::empty(),
    }
}

/// The receiver row, when the file names a receiver: its model.
pub open spec fn receiver_html_rows(r: Option<crate::header::Receiver>) -> Seq<(Seq<char>, CellView)> {
    match r {
        Some(r) => seq![("Receiver"@, CellView::Nested("  Model"@, r.model@))],
        None => Seq::empty(),
    }
}

/// The antenna row, when the file names an antenna: its model.
pub open spec fn antenna_html_rows(a: Option<crate::header::Antenna>) -> Seq<(Seq<char>, CellView)> {
    match a {
        Some(a) => seq![("Antenna"@, CellView::Nested("  Model"@, a.model@))],
        None => Seq::empty(),
    }
}

/// The marker row, when the file names a geodetic marker: its name.
pub open spec fn marker_html_rows(m: Option<crate::header::GeodeticMarker>) -> Seq<
    (Seq<char>, CellView),
> {
    match m {
        Some(m) => seq![("Geodetic Marker"@, CellView::Nested("  Name"@, m.name@))],
        None => Seq::empty(),
    }
}

/// The system time corrections row, when the file has some: each
/// correction in increasing order.
pub open spec fn corrections_html_rows(c: Seq<(TimeScale, TimeScale)>) -> Seq<(Seq<char>, CellView)> {
    if c.len() == 0 {
        Seq::empty()
    } else {
        seq![("V3 System Time Corrections"@, CellView::Text(corrections_text(sorted_pairs(c))))]
    }
}

/// The rows of the HTML summary of a RINEX file.
pub open spec fn rinex_html_rows(s: QcRINEXFileSummary) -> Seq<(Seq<char>, CellView)> {
    seq![
        ("Revision"@, CellView::Text("v"@ + spec_rinex_version_label(s.version))),
        (
            "Timescale"@,
            CellView::Text(
                match s.timescale {
                    Some(t) => spec_timescale_label(t),
                    None => "Undefined"@,
                },
            ),
        ),
    ] + position_html_rows(s.reference_position) + receiver_html_rows(s.receiver)
        + antenna_html_rows(s.antenna) + marker_html_rows(s.geodetic_marker)
        + corrections_html_rows(s.v3_time_corrections@)
}

/// The system time corrections in increasing order, as "target/reference, "
/// one after the other.
fn corrections_string(c: &Vec<(TimeScale, TimeScale)>) -> (text: String)
    ensures
        text@ == corrections_text(sorted_pairs(c@)),
{
    let sorted = sort_pairs(c);
    let mut text = String::new();
    let mut i: usize = 0;
    while i < sorted.len()
        invariant
            i <= sorted@.len(),
            text@ == corrections_text(sorted@.subrange(0, i as int)),
        decreases sorted@.len() - i,
    {
        let p = sorted[i];
        let lhs = timescale_label(p.0);
        let rhs = timescale_label(p.1);
        text.append(lhs.as_str());
        text.append("/");
        text.append(rhs.as_str());
        text.append(", ");
        proof {
            let sub = sorted@.subrange(0, i + 1);
            assert(sub.drop_last() =~= sorted@.subrange(0, i as int));
            assert(sub.last() == p);
        }
        i = i + 1;
    }
    proof {
        assert(sorted@.subrange(0, sorted@.len() as int) =~= sorted@);
    }
    text
}

/// Appends the position row, when there is a position.
fn push_position_rows(rows: &mut Vec<HtmlRow>, p: Option<QcReferencePosition>)
    ensures
        html_rows_view(final(rows)@) == html_rows_view(old(rows)@) + position_html_rows(p),
{
    if let Some(p) = p {
        rows.push(
            HtmlRow { header: String::from_str("Reference position"), cell: HtmlCell::Position(p) },
        );
    }
    proof {
        assert(html_rows_view(rows@) =~= html_rows_view(old(rows)@) + position_html_rows(p));
    }
}

/// Appends the receiver row, when there is a receiver.
fn push_receiver_rows(rows: &mut Vec<HtmlRow>, r: &Option<crate::header::Receiver>)
    ensures
        html_rows_view(final(rows)@) == html_rows_view(old(rows)@) + receiver_html_rows(*r),
{
    if let Some(r) = r {
        push_nested_row(rows, "Receiver", "  Model", r.model.clone());
    }
    proof {
        assert(html_rows_view(rows@) =~= html_rows_view(old(rows)@) + receiver_html_rows(*r));
    }
}

/// Appends the antenna row, when there is an antenna.
fn push_antenna_rows(rows: &mut Vec<HtmlRow>, a: &Option<crate::header::Antenna>)
    ensures
        html_rows_view(final(rows)@) == html_rows_view(old(rows)@) + antenna_html_rows(*a),
{
    if let Some(a) = a {
        push_nested_row(rows, "Antenna", "  Model", a.model.clone());
    }
    proof {
        assert(html_rows_view(rows@) =~= html_rows_view(old(rows)@) + antenna_html_rows(*a));
    }
}

/// Appends the marker row, when there is a marker.
fn push_marker_rows(rows: &mut Vec<HtmlRow>, m: &Option<crate::header::GeodeticMarker>)
    ensures
        html_rows_view(final(rows)@) == html_rows_view(old(rows)@) + marker_html_rows(*m),
{
    if let Some(m) = m {
        push_nested_row(rows, "Geodetic Marker", "  Name", m.name.clone());
    }
    proof {
        assert(html_rows_view(rows@) =~= html_rows_view(old(rows)@) + marker_html_rows(*m));
    }
}

/// Appends the system time corrections row, when there are corrections.
fn push_corrections_rows(rows: &mut Vec<HtmlRow>, c: &Vec<(TimeScale, TimeScale)>)
    ensures
        html_rows_view(final(rows)@) == html_rows_view(old(rows)@) + corrections_html_rows(c@),
{
    if c.len() > 0 {
        let text = corrections_string(c);
        push_text_row(rows, "V3 System Time Corrections", text);
    }
    proof {
        assert(html_rows_view(rows@) =~= html_rows_view(old(rows)@) + corrections_html_rows(c@));
    }
}

impl QcRINEXFileSummary {
    /// The rows of the HTML summary of this RINEX file.
    pub fn render(&self) -> (rows: Vec<HtmlRow>)
        ensures
            html_rows_view(rows@) == rinex_html_rows(*self),
    {
        let mut rows: Vec<HtmlRow> = Vec::new();
        let mut revision = String::from_str("v");
        let version = rinex_version_label(self.version);
        revision.append(version.as_str());
        push_text_row(&mut rows, "Revision", revision);
        let timescale = match self.timescale {
            Some(t) => timescale_label(t),
            None => String::from_str("Undefined"),
        };
        push_text_row(&mut rows, "Timescale", timescale);
        let ghost head = html_rows_view(rows@);
        push_position_rows(&mut rows, self.reference_position);
        push_receiver_rows(&mut rows, &self.receiver);
        push_antenna_rows(&mut rows, &self.antenna);
        push_marker_rows(&mut rows, &self.geodetic_marker);
        push_corrections_rows(&mut rows, &self.v3_time_corrections);
        proof {
            assert(html_rows_view(rows@) =~= rinex_html_rows(*self));
        }
        rows
    }
}

/// The rows of the HTML summary of an SP3 file.
pub open spec fn sp3_html_rows(s: QcSP3FileSummary) -> Seq<(Seq<char>, CellView)> {
    seq![
        ("Agency"@, CellView::Text(s.agency@)),
        ("Revision"@, CellView::Text(spec_sp3_version_label(s.version))),
        ("Reference Frame"@, CellView::Text(s.frame@)),
        ("Timescale"@, CellView::Text(spec_timescale_label(s.timescale))),
        ("Orbit Type"@, CellView::Text(s.orbit_type@)),
        ("Velocities"@, CellView::Text(bool_text(s.has_sv_velocities))),
        ("Clock Offset"@, CellView::Text(bool_text(s.has_sv_clock_offsets))),
        ("Clock drift"@, CellView::Text(bool_text(s.has_sv_clock_drift))),
        ("Satellite maneuver"@, CellView::Text(bool_text(s.has_sv_maneuver))),
        ("Clock events (bumps)"@, CellView::Text(bool_text(s.has_sv_clock_event))),
    ]
}

/// The HTML summary of an SP3 file gives its agency, reference frame and
/// orbit type under their own headings, and each data-kind row reads "true"
/// exactly when the file holds that kind of data: velocities, clock
/// offsets, clock drifts, maneuvers, clock events.
pub proof fn law_sp3_summary_rows(s: QcSP3FileSummary)
    ensures
        sp3_html_rows(s).len() == 10,
        sp3_html_rows(s)[0] == ("Agency"@, CellView::Text(s.agency@)),
        sp3_html_rows(s)[2] == ("Reference Frame"@, CellView::Text(s.frame@)),
        sp3_html_rows(s)[4] == ("Orbit Type"@, CellView::Text(s.orbit_type@)),
        sp3_html_rows(s)[5] == ("Velocities"@, CellView::Text(
            if s.has_sv_velocities { "true"@ } else { "false"@ },
        )),
        sp3_html_rows(s)[6] == ("Clock Offset"@, CellView::Text(
            if s.has_sv_clock_offsets { "true"@ } else { "false"@ },
        )),
        sp3_html_rows(s)[7] == ("Clock drift"@, CellView::Text(
            if s.has_sv_clock_drift { "true"@ } else { "false"@ },
        )),
        sp3_html_rows(s)[8] == ("Satellite maneuver"@, CellView::Text(
            if s.has_sv_maneuver { "true"@ } else { "false"@ },
        )),
        sp3_html_rows(s)[9] == ("Clock events (bumps)"@, CellView::Text(
            if s.has_sv_clock_event { "true"@ } else { "false"@ },
        )),
{
}

impl QcSP3FileSummary {
    /// The rows of the HTML summary of this SP3 file.
    pub fn render(&self) -> (rows: Vec<HtmlRow>)
        ensures
            html_rows_view(rows@) == sp3_html_rows(*self),
    {
        let mut rows: Vec<HtmlRow> = Vec::new();
        push_text_row(&mut rows, "Agency", self.agency.clone());
        push_text_row(&mut rows, "Revision", sp3_version_label(self.version));
        push_text_row(&mut rows, "Reference Frame", self.frame.clone());
        push_text_row(&mut rows, "Timescale", timescale_label(self.timescale));
        push_text_row(&mut rows, "Orbit Type", self.orbit_type.clone());
        push_text_row(&mut rows, "Velocities", bool_string(self.has_sv_velocities));
        push_text_row(&mut rows, "Clock Offset", bool_string(self.has_sv_clock_offsets));
        push_text_row(&mut rows, "Clock drift", bool_string(self.has_sv_clock_drift));
        push_text_row(&mut rows, "Satellite maneuver", bool_string(self.has_sv_maneuver));
        push_text_row(&mut rows, "Clock events (bumps)", bool_string(self.has_sv_clock_event));
        proof {
            assert(html_rows_view(rows@) =~= sp3_html_rows(*self));
        }
        rows
    }
}

/// One file of the HTML summary: the file, the texts of its row in the
/// table (product type, indexing, file name), the call that a click on the
/// row makes, the element identifier of its section, and whether that
/// section is shown when the page opens.
pub struct FileSummaryEntry {
    pub file: QcSourceDescriptor,
    pub cells: Vec<String>,
    pub onclick: String,
    pub section_id: String,
    pub shown: bool,
}

/// The files of a list of entries.
pub open spec fn entry_files(entries: Seq<FileSummaryEntry>) -> Seq<
    (QcProductType, (u8, Seq<char>), Seq<char>),
> {
    entries.map_values(|e: FileSummaryEntry| e.file@)
}

/// True when `e` is the entry of `file` at place `i`: its cells, its click
/// call, its section identifier, and shown exactly when it comes first.
pub open spec fn is_file_entry(e: FileSummaryEntry, i: int) -> bool {
    &&& e.cells@.len() == 3
    &&& e.cells@[0]@ == e.file.product_type.spec_label()
    &&& e.cells@[1]@ == e.file.indexing.spec_label()
    &&& e.cells@[2]@ == e.file.filename@
    &&& e.onclick@ == "selectFileSummary('"@ + e.file.filename@ + "')"@
    &&& e.section_id@ == e.file.filename@ + "-sum"@
    &&& e.shown == (i == 0)
}

impl QcContextSummary {
    /// The files of the HTML summary, in the order of its table and of the
    /// per-file sections, of which only the first is shown.
    pub fn render(&self) -> (entries: Vec<FileSummaryEntry>)
        ensures
            is_increasing_listing::<QcSourceDescriptor>(
                entry_files(entries@),
                self.summaries@.dom(),
            ),
            forall|i: int| 0 <= i < entries@.len() ==> is_file_entry(#[trigger] entries@[i], i),
    {
        let files = sorted_map_keys(&self.summaries);
        let mut entries: Vec<FileSummaryEntry> = Vec::new();
        let mut i: usize = 0;
        while i < files.len()
            invariant
                i <= files@.len(),
                entries@.len() == i,
                forall|j: int| 0 <= j < i ==> (#[trigger] entries@[j]).file@ == files@[j]@,
                forall|j: int| 0 <= j < i ==> is_file_entry(#[trigger] entries@[j], j),
            decreases files@.len() - i,
        {
            let file = files[i].copy_key();
            let mut cells: Vec<String> = Vec::new();
            cells.push(String::from_str(file.product_type.label()));
            cells.push(file.indexing.label());
            cells.push(file.filename.clone());
            let mut onclick = String::from_str("selectFileSummary('");
            onclick.append(file.filename.as_str());
            onclick.append("')");
            let mut section_id = file.filename.clone();
            section_id.append("-sum");
            entries.push(FileSummaryEntry { file, cells, onclick, section_id, shown: i == 0 });
            i = i + 1;
        }
        proof {
            assert(entry_files(entries@) =~= views_of(files@));
        }
        entries
    }
}

/// A pair of station names.
pub type NamePair = (Seq<char>, Seq<char>);

/// Text of each pair of station names: "first/second".
pub open spec fn pair_labels(pairs: Seq<(Seq<char>, Seq<char>)>) -> Seq<Seq<char>> {
    pairs.map_values(|p: (Seq<char>, Seq<char>)| p.0 + "/"@ + p.1)
}

/// True when `pairs` lists the pairs of `keys`, each once, in increasing
/// order.
pub open spec fn is_pair_listing(
    pairs: Seq<(Seq<char>, Seq<char>)>,
    keys: Set<(Seq<char>, Seq<char>)>,
) -> bool {
    is_increasing_listing::<(String, String)>(pairs, keys)
}

impl QcRTKSummary {
    /// The rows of the HTML RTK summary: each pair of base stations of the
    /// base network, in increasing order, as "base_i/base_j".
    pub fn render(&self) -> (rows: Vec<String>)
        ensures
            exists|pairs: Seq<NamePair>|
                is_pair_listing(pairs, self.base_network_distances_km@.dom()) && views_of(rows@)
                    == #[trigger] pair_labels(pairs),
    {
        let pairs = sorted_map_keys(&self.base_network_distances_km);
        let ghost pv = views_of(pairs@);
        let mut rows: Vec<String> = Vec::new();
        let mut i: usize = 0;
        while i < pairs.len()
            invariant
                i <= pairs@.len(),
                pv == views_of(pairs@),
                views_of(rows@) == pv.subrange(0, i as int).map_values(
                    |p: (Seq<char>, Seq<char>)| p.0 + "/"@ + p.1,
                ),
            decreases pairs@.len() - i,
        {
            let mut label = pairs[i].0.clone();
            label.append("/");
            label.append(pairs[i].1.as_str());
            let ghost before = views_of(rows@);
            rows.push(label);
            proof {
                assert(views_of(rows@) =~= before.push(label@));
                assert(pv.subrange(0, i + 1).map_values(|p: (Seq<char>, Seq<char>)| p.0 + "/"@ + p.1)
                    =~= pv.subrange(0, i as int).map_values(
                    |p: (Seq<char>, Seq<char>)| p.0 + "/"@ + p.1,
                ).push(pv[i as int].0 + "/"@ + pv[i as int].1));
            }
            i = i + 1;
        }
        proof {
            assert(pv.subrange(0, pv.len() as int) =~= pv);
            assert(views_of(rows@) == pair_labels(pv));
        }
        rows
    }
}

impl QcObservationsReport {
    /// The pages of the PDF rendition: one per data source and
    /// constellation, in increasing order.
    pub fn render_pdf(&self) -> (pages: Vec<(QcIndexing, Constellation)>)
        ensures
            is_increasing_listing::<(QcIndexing, Constellation)>(views_of(pages@), self.data@.dom()),
    {
        sorted_map_keys(&self.data)
    }

    /// Title of the page of a data source and constellation.
    pub fn page_title(indexing: &QcIndexing, constellation: Constellation) -> (s: String)
        ensures
            s@ == indexing.spec_label() + " "@ + spec_constellation_label(constellation)
                + " Pseudo Range Observations"@,
    {
        let mut s = indexing.label();
        s.append(" ");
        let c = constellation_label(constellation);
        s.append(c.as_str());
        s.append(" Pseudo Range Observations");
        s
    }
}

/// One section of the HTML rendition of orbit projections: its element
/// identifier, and whether it is shown when the page opens.
pub struct ProjectionSection {
    pub id: String,
    pub shown: bool,
}

/// What the HTML rendition of orbit projections shows: the sources
/// (agencies) and constellations to choose from, each in increasing order,
/// with their forms (the first choice checked, and a choice of all of them
/// when there are several); then one section per source and constellation,
/// in increasing order, of which only the first is shown.
pub struct QcOrbitProjectionsHtml {
    pub agencies: Vec<QcIndexing>,
    pub agency_form: Vec<RadioOption<QcIndexing>>,
    pub constellations: Vec<Constellation>,
    pub constellation_form: Vec<RadioOption<Constellation>>,
    pub sections: Vec<QcOrbitProjectionsKey>,
    pub layout: Vec<ProjectionSection>,
}

/// The sources of a set of (source, constellation) keys.
pub open spec fn sources_of(keys: Set<((u8, Seq<char>), Constellation)>) -> Set<(u8, Seq<char>)> {
    keys.map(|k: ((u8, Seq<char>), Constellation)| k.0)
}

/// The constellations of a set of (source, constellation) keys.
pub open spec fn constellations_of(keys: Set<((u8, Seq<char>), Constellation)>) -> Set<Constellation> {
    keys.map(|k: ((u8, Seq<char>), Constellation)| k.1)
}

/// The element identifier of the section of a source and constellation.
pub open spec fn spec_projection_id(k: QcOrbitProjectionsKey) -> Seq<char> {
    k.indexing.spec_label() + "-"@ + spec_constellation_label(k.constellation)
}

impl QcOrbitProjectionsKey {
    /// The element identifier of the section of this source and
    /// constellation.
    pub fn html_id(&self) -> (s: String)
        ensures
            s@ == spec_projection_id(*self),
    {
        let mut s = self.indexing.label();
        s.append("-");
        let c = constellation_label(self.constellation);
        s.append(c.as_str());
        s
    }
}

impl QcOrbitProjections {
    /// What the HTML rendition of these projections shows.
    pub fn render(&self) -> (h: QcOrbitProjectionsHtml)
        ensures
            is_increasing_listing::<QcOrbitProjectionsKey>(
                views_of(h.sections@),
                self.projections@.dom(),
            ),
            is_increasing_listing::<QcIndexing>(
                views_of(h.agencies@),
                sources_of(self.projections@.dom()),
            ),
            is_increasing_listing::<Constellation>(
                views_of(h.constellations@),
                constellations_of(self.projections@.dom()),
            ),
            is_choice_form(h.agency_form@, views_of(h.agencies@)),
            is_choice_form(h.constellation_form@, views_of(h.constellations@)),
            h.layout@.len() == h.sections@.len(),
            forall|i: int|
                0 <= i < h.layout@.len() ==> (#[trigger] h.layout@[i]).id@ == spec_projection_id(
                    h.sections@[i],
                ) && h.layout@[i].shown == (i == 0),
    {
        let sections = sorted_map_keys(&self.projections);
        let ghost keys = self.projections@.dom();
        let mut indexings: Vec<QcIndexing> = Vec::new();
        let mut constellations: Vec<Constellation> = Vec::new();
        let mut i: usize = 0;
        while i < sections.len()
            invariant
                i <= sections@.len(),
                is_increasing_listing::<QcOrbitProjectionsKey>(views_of(sections@), keys),
                views_of(indexings@) == views_of(sections@).subrange(0, i as int).map_values(
                    |k: ((u8, Seq<char>), Constellation)| k.0,
                ),
                views_of(constellations@) == views_of(sections@).subrange(0, i as int).map_values(
                    |k: ((u8, Seq<char>), Constellation)| k.1,
                ),
            decreases sections@.len() - i,
        {
            let ghost bi = views_of(indexings@);
            let ghost bc = views_of(constellations@);
            indexings.push(sections[i].indexing.copy_key());
            constellations.push(sections[i].constellation);
            proof {
                let sv = views_of(sections@);
                assert(views_of(indexings@) =~= bi.push(sv[i as int].0));
                assert(views_of(constellations@) =~= bc.push(sv[i as int].1));
                assert(sv.subrange(0, i + 1).map_values(|k: ((u8, Seq<char>), Constellation)| k.0)
                    =~= sv.subrange(0, i as int).map_values(
                    |k: ((u8, Seq<char>), Constellation)| k.0,
                ).push(sv[i as int].0));
                assert(sv.subrange(0, i + 1).map_values(|k: ((u8, Seq<char>), Constellation)| k.1)
                    =~= sv.subrange(0, i as int).map_values(
                    |k: ((u8, Seq<char>), Constellation)| k.1,
                ).push(sv[i as int].1));
            }
            i = i + 1;
        }
        let agencies = sorted_distinct(&indexings);
        let constellation_list = sorted_distinct(&constellations);
        proof {
            let sv = views_of(sections@);
            assert(sv.subrange(0, sv.len() as int) =~= sv);
            let iv = views_of(indexings@);
            let cv = views_of(constellations@);
            assert forall|x: (u8, Seq<char>)|
                iv.to_set().contains(x) <==> #[trigger] sources_of(keys).contains(x) by {
                if iv.to_set().contains(x) {
                    let j = choose|j: int| 0 <= j < iv.len() && iv[j] == x;
                    assert(sv.contains(sv[j]));
                    assert(keys.contains(sv[j]));
                }
                if sources_of(keys).contains(x) {
                    let k = choose|k: ((u8, Seq<char>), Constellation)| keys.contains(k) && k.0 == x;
                    assert(sv.contains(k));
                    let j = choose|j: int| 0 <= j < sv.len() && sv[j] == k;
                    assert(iv[j] == x);
                }
            }
            assert forall|x: Constellation|
                cv.to_set().contains(x) <==> #[trigger] constellations_of(keys).contains(x) by {
                if cv.to_set().contains(x) {
                    let j = choose|j: int| 0 <= j < cv.len() && cv[j] == x;
                    assert(sv.contains(sv[j]));
                    assert(keys.contains(sv[j]));
                }
                if constellations_of(keys).contains(x) {
                    let k = choose|k: ((u8, Seq<char>), Constellation)| keys.contains(k) && k.1 == x;
                    assert(sv.contains(k));
                    let j = choose|j: int| 0 <= j < sv.len() && sv[j] == k;
                    assert(cv[j] == x);
                }
            }
            assert(iv.to_set() =~= sources_of(keys));
            assert(cv.to_set() =~= constellations_of(keys));
        }
        let agency_form = choice_form(&agencies);
        let constellation_form = choice_form(&constellation_list);
        let mut layout: Vec<ProjectionSection> = Vec::new();
        let mut j: usize = 0;
        while j < sections.len()
            invariant
                j <= sections@.len(),
                layout@.len() == j,
                forall|k: int|
                    0 <= k < j ==> (#[trigger] layout@[k]).id@ == spec_projection_id(sections@[k])
                        && layout@[k].shown == (k == 0),
            decreases sections@.len() - j,
        {
            let id = sections[j].html_id();
            layout.push(ProjectionSection { id, shown: j == 0 });
            j = j + 1;
        }
        QcOrbitProjectionsHtml {
            agencies,
            agency_form,
            constellations: constellation_list,
            constellation_form,
            sections,
            layout,
        }
    }
}

impl QcOrbitProjections {
    /// The pages of the PDF rendition: one per source and constellation, in
    /// increasing order.
    pub fn render_pdf(&self) -> (pages: Vec<QcOrbitProjectionsKey>)
        ensures
            is_increasing_listing::<QcOrbitProjectionsKey>(views_of(pages@), self.projections@.dom()),
    {
        sorted_map_keys(&self.projections)
    }
}

impl QcOrbitProjectionsKey {
    /// Identifier of the plot of this source and constellation.
    pub fn plot_id(&self) -> (s: String)
        ensures
            s@ == spec_projection_id(*self) + "-orbit-proj"@,
    {
        let mut s = self.html_id();
        s.append("-orbit-proj");
        s
    }
}

/// The constellations observed for data source `source`.
pub open spec fn constellations_of_source(
    keys: Set<((u8, Seq<char>), Constellation)>,
    source: (u8, Seq<char>),
) -> Set<Constellation> {
    Set::new(|c: Constellation| keys.contains((source, c)))
}

impl QcObservationsReport {
    /// The data sources of the HTML rendition, in increasing order, each
    /// with its constellations in increasing order.
    pub fn render(&self) -> (sources: Vec<(QcIndexing, Vec<Constellation>)>)
        ensures
            is_increasing_listing::<QcIndexing>(
                sources@.map_values(|e: (QcIndexing, Vec<Constellation>)| e.0@),
                sources_of(self.data@.dom()),
            ),
            forall|i: int|
                0 <= i < sources@.len() ==> is_increasing_listing::<Constellation>(
                    views_of(#[trigger] sources@[i].1@),
                    constellations_of_source(self.data@.dom(), sources@[i].0@),
                ),
    {
        let keys = sorted_map_keys(&self.data);
        let ghost dom = self.data@.dom();
        let mut indexings: Vec<QcIndexing> = Vec::new();
        let mut i: usize = 0;
        while i < keys.len()
            invariant
                i <= keys@.len(),
                is_increasing_listing::<(QcIndexing, Constellation)>(views_of(keys@), dom),
                views_of(indexings@) == views_of(keys@).subrange(0, i as int).map_values(
                    |k: ((u8, Seq<char>), Constellation)| k.0,
                ),
            decreases keys@.len() - i,
        {
            let ghost before = views_of(indexings@);
            indexings.push(keys[i].0.copy_key());
            proof {
                let kv = views_of(keys@);
                assert(views_of(indexings@) =~= before.push(kv[i as int].0));
                assert(kv.subrange(0, i + 1).map_values(|k: ((u8, Seq<char>), Constellation)| k.0)
                    =~= kv.subrange(0, i as int).map_values(
                    |k: ((u8, Seq<char>), Constellation)| k.0,
                ).push(kv[i as int].0));
            }
            i = i + 1;
        }
        let list = sorted_distinct(&indexings);
        proof {
            let kv = views_of(keys@);
            assert(kv.subrange(0, kv.len() as int) =~= kv);
            let iv = views_of(indexings@);
            assert forall|x: (u8, Seq<char>)|
                iv.to_set().contains(x) <==> #[trigger] sources_of(dom).contains(x) by {
                if iv.to_set().contains(x) {
                    let j = choose|j: int| 0 <= j < iv.len() && iv[j] == x;
                    assert(kv.contains(kv[j]));
                }
                if sources_of(dom).contains(x) {
                    let k = choose|k: ((u8, Seq<char>), Constellation)| dom.contains(k) && k.0 == x;
                    assert(kv.contains(k));
                    let j = choose|j: int| 0 <= j < kv.len() && kv[j] == k;
                    assert(iv[j] == x);
                }
            }
            assert(iv.to_set() =~= sources_of(dom));
        }
        let mut sources: Vec<(QcIndexing, Vec<Constellation>)> = Vec::new();
        let mut s: usize = 0;
        while s < list.len()
            invariant
                s <= list@.len(),
                sources@.len() == s,
                is_increasing_listing::<(QcIndexing, Constellation)>(views_of(keys@), dom),
                forall|j: int| 0 <= j < s ==> #[trigger] sources@[j].0@ == views_of(list@)[j],
                forall|j: int|
                    0 <= j < s ==> is_increasing_listing::<Constellation>(
                        views_of(#[trigger] sources@[j].1@),
                        constellations_of_source(dom, sources@[j].0@),
                    ),
            decreases list@.len() - s,
        {
            let source = &list[s];
            let mut found: Vec<Constellation> = Vec::new();
            let mut k: usize = 0;
            while k < keys.len()
                invariant
                    k <= keys@.len(),
                    forall|c: Constellation|
                        #[trigger] views_of(found@).contains(c) <==> exists|j: int|
                            0 <= j < k && #[trigger] views_of(keys@)[j] == (source@, c),
                decreases keys@.len() - k,
            {
                let ghost before = views_of(found@);
                if keys[k].0.same_key(source) {
                    found.push(keys[k].1);
                    proof {
                        let kv = views_of(keys@);
                        let nf = views_of(found@);
                        assert(nf =~= before.push(keys@[k as int].1));
                        assert(kv[k as int] == (source@, keys@[k as int].1));
                        assert forall|c: Constellation|
                            #[trigger] nf.contains(c) <==> exists|j: int|
                                0 <= j < k + 1 && #[trigger] kv[j] == (source@, c) by {
                            if nf.contains(c) {
                                let q = choose|q: int| 0 <= q < nf.len() && nf[q] == c;
                                if q < before.len() {
                                    assert(before[q] == c);
                                    assert(before.contains(c));
                                    let j = choose|j: int| 0 <= j < k && #[trigger] kv[j] == (source@, c);
                                    assert(kv[j] == (source@, c));
                                } else {
                                    assert(kv[k as int] == (source@, c));
                                }
                            }
                            if exists|j: int| 0 <= j < k + 1 && #[trigger] kv[j] == (source@, c) {
                                let j = choose|j: int| 0 <= j < k + 1 && #[trigger] kv[j] == (source@, c);
                                if j == k {
                                    assert(nf[before.len() as int] == c);
                                } else {
                                    assert(before.contains(c));
                                    let q = choose|q: int| 0 <= q < before.len() && before[q] == c;
                                    assert(nf[q] == c);
                                }
                            }
                        }
                    }
                } else {
                    proof {
                        let kv = views_of(keys@);
                        assert forall|c: Constellation|
                            #[trigger] views_of(found@).contains(c) <==> exists|j: int|
                                0 <= j < k + 1 && #[trigger] kv[j] == (source@, c) by {
                            if exists|j: int| 0 <= j < k + 1 && #[trigger] kv[j] == (source@, c) {
                                let j = choose|j: int| 0 <= j < k + 1 && #[trigger] kv[j] == (source@, c);
                                assert(j != k);
                            }
                        }
                    }
                }
                k = k + 1;
            }
            let constellations = sorted_distinct(&found);
            proof {
                let kv = views_of(keys@);
                let fv = views_of(found@);
                assert forall|c: Constellation|
                    fv.to_set().contains(c) <==> #[trigger] constellations_of_source(dom, source@).contains(c) by {
                    if fv.to_set().contains(c) {
                        assert(fv.contains(c));
                        let j = choose|j: int| 0 <= j < keys@.len() && #[trigger] kv[j] == (source@, c);
                        assert(kv.contains(kv[j]));
                    }
                    if constellations_of_source(dom, source@).contains(c) {
                        assert(dom.contains((source@, c)));
                        assert(kv.contains((source@, c)));
                        let j = choose|j: int| 0 <= j < kv.len() && kv[j] == (source@, c);
                        assert(fv.contains(c));
                    }
                }
                assert(fv.to_set() =~= constellations_of_source(dom, source@));
            }
            sources.push((source.copy_key(), constellations));
            s = s + 1;
        }
        proof {
            assert(sources@.map_values(|e: (QcIndexing, Vec<Constellation>)| e.0@) =~= views_of(list@));
        }
        sources
    }
}

/// The plots of the HTML orbit projections: one per source and
/// constellation, in increasing order, each with its element identifier.
pub struct QcHtmlOrbitProjections {
    pub plots: Vec<(QcOrbitProjectionsKey, String)>,
}

impl QcOrbitProjections {
    /// The plots of the HTML rendition, titled "Orbit Projection" in
    /// kilometers.
    pub fn to_html(&self) -> (h: QcHtmlOrbitProjections)
        ensures
            is_increasing_listing::<QcOrbitProjectionsKey>(
                h.plots@.map_values(|p: (QcOrbitProjectionsKey, String)| p.0@),
                self.projections@.dom(),
            ),
            forall|i: int|
                0 <= i < h.plots@.len() ==> (#[trigger] h.plots@[i]).1@ == spec_projection_id(
                    h.plots@[i].0,
                ) + "-orbit-proj"@,
    {
        let keys = self.render_pdf();
        let mut plots: Vec<(QcOrbitProjectionsKey, String)> = Vec::new();
        let mut i: usize = 0;
        while i < keys.len()
            invariant
                i <= keys@.len(),
                plots@.map_values(|p: (QcOrbitProjectionsKey, String)| p.0@) == views_of(
                    keys@,
                ).subrange(0, i as int),
                forall|j: int|
                    0 <= j < plots@.len() ==> (#[trigger] plots@[j]).1@ == spec_projection_id(
                        plots@[j].0,
                    ) + "-orbit-proj"@,
            decreases keys@.len() - i,
        {
            let ghost before = plots@.map_values(|p: (QcOrbitProjectionsKey, String)| p.0@);
            let key = keys[i].copy_key();
            let id = key.plot_id();
            proof {
                assert(spec_projection_id(key) == spec_projection_id(keys@[i as int])) by {
                    assert(key.indexing@ == keys@[i as int].indexing@);
                    assert(key.indexing.spec_label() == keys@[i as int].indexing.spec_label());
                }
            }
            plots.push((key, id));
            proof {
                assert(plots@.map_values(|p: (QcOrbitProjectionsKey, String)| p.0@) =~= before.push(
                    keys@[i as int]@,
                ));
                assert(views_of(keys@).subrange(0, i + 1) =~= views_of(keys@).subrange(
                    0,
                    i as int,
                ).push(keys@[i as int]@));
            }
            i = i + 1;
        }
        proof {
            assert(views_of(keys@).subrange(0, keys@.len() as int) =~= views_of(keys@));
        }
        QcHtmlOrbitProjections { plots }
    }
}

} // verus!
