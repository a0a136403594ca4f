//! PDF rendition of the input file summaries: one table per RINEX file, in
//! file order, with its system time corrections when it has some, then one
//! page per SP3 file.
use crate::header::{Antenna, GeodeticMarker, Receiver};
use crate::labels::{
    rinex_version_label, sp3_version_label, spec_rinex_version_label, spec_sp3_version_label,
    spec_timescale_label, timescale_label,
};
use crate::model::{QcProductType, QcSourceDescriptor, TimeScale};
use crate::order::{
    desc_views, is_sorted_listing, selected, sort_pairs, sorted_descriptors, sorted_listing,
    sorted_pairs, DescView,
};
use crate::pdf::{
    blocks_view, concat, push_block, push_row, rows_view, true_false, true_false_text, yes_none,
    yes_none_text, BlockView, PdfBlock, PdfRow, RowView,
};
use crate::summaries::{QcContextSummary, QcFileSummary, QcRINEXFileSummary, QcSP3FileSummary};
use vstd::prelude::*;

verus! {

/// Name of the kind of identifier of an indexing, from its view.
pub open spec fn index_kind_name(i: (u8, Seq<char>)) -> Seq<char> {
    if i.0 == 0 {
        "None"@
    } else if i.0 == 1 {
        "Agency"@
    } else if i.0 == 2 {
        "Custom"@
    } else if i.0 == 3 {
        "Marker"@
    } else if i.0 == 4 {
        "GNSS Receiver"@
    } else if i.0 == 5 {
        "Operator"@
    } else {
        "GNSS Antenna"@
    }
}

/// The identifier of an indexing, from its view ("None" when unindexed).
pub open spec fn index_label(i: (u8, Seq<char>)) -> Seq<char> {
    if i.0 == 0 {
        "None"@
    } else {
        i.1
    }
}

/// Text of an optional time scale ("N.a" when there is none).
pub open spec fn timescale_text(t: Option<TimeScale>) -> Seq<char> {
    match t {
        Some(t) => spec_timescale_label(t),
        None => "N.a"@,
    }
}

/// The receiver row, when a receiver is known: model then serial number.
pub open spec fn receiver_rows(r: Option<Receiver>) -> Seq<RowView> {
    match r {
        Some(r) => seq![("GNSS-Receiver"@, r.model@ + r.sn@, true, false)],
        None => Seq::empty(),
    }
}

/// The antenna row, when an antenna is known: model then serial number.
pub open spec fn antenna_rows(a: Option<Antenna>) -> Seq<RowView> {
    match a {
        Some(a) => seq![("GNSS-Antenna"@, a.model@ + a.sn@, true, false)],
        None => Seq::empty(),
    }
}

/// The marker row, when a marker is known: "name-number", or the name alone
/// when it has no number.
pub open spec fn marker_rows(m: Option<GeodeticMarker>) -> Seq<RowView> {
    match m {
        Some(m) => match m.number {
            Some(n) => seq![("Marker"@, m.name@ + "-"@ + n@, true, false)],
            None => seq![("Marker"@, m.name@, true, false)],
        },
        None => Seq::empty(),
    }
}

/// The table rows of a RINEX file.
pub open spec fn rinex_rows(d: DescView, s: QcRINEXFileSummary) -> Seq<RowView> {
    seq![
        ("Filename"@, d.2, true, true),
        ("Format"@, d.0.spec_label(), true, true),
        ("Version"@, spec_rinex_version_label(s.version), true, false),
        ("Indexing"@, index_kind_name(d.1), true, false),
        ("Index"@, index_label(d.1), true, false),
        ("Timescale"@, timescale_text(s.timescale), true, false),
    ] + receiver_rows(s.receiver) + antenna_rows(s.antenna) + marker_rows(s.geodetic_marker)
}

/// One row per system time correction: target, then reference.
pub open spec fn correction_rows(c: Seq<(TimeScale, TimeScale)>) -> Seq<RowView> {
    c.map_values(
        |p: (TimeScale, TimeScale)| (spec_timescale_label(p.0), spec_timescale_label(p.1), false, false),
    )
}

/// The time correction blocks of a RINEX file: none without corrections,
/// else a blank line, a heading and a table of the corrections in increasing
/// order under a Target/Reference header.
pub open spec fn corrections_blocks(c: Seq<(TimeScale, TimeScale)>) -> Seq<BlockView> {
    if c.len() == 0 {
        Seq::empty()
    } else {
        seq![
            BlockView::Break,
            BlockView::Heading("Time Corrections"@),
            BlockView::Table(
                seq![("Target"@, "Reference"@, true, true)] + correction_rows(sorted_pairs(c)),
            ),
        ]
    }
}

/// The blocks of one RINEX file; every file but the first starts a page.
pub open spec fn rinex_file_blocks(d: DescView, s: QcRINEXFileSummary, first: bool) -> Seq<
    BlockView,
> {
    (if first {
        Seq::empty()
    } else {
        seq![BlockView::PageBreak]
    }) + seq![BlockView::Table(rinex_rows(d, s))] + corrections_blocks(s.v3_time_corrections@)
}

/// The blocks of the RINEX files listed in `order`.
pub open spec fn rinex_section(order: Seq<DescView>, m: Map<DescView, QcFileSummary>) -> Seq<
    BlockView,
>
    decreases order.len(),
{
    if order.len() == 0 {
        Seq::empty()
    } else {
        rinex_section(order.drop_last(), m) + rinex_file_blocks(
            order.last(),
            m[order.last()]->RINEX_0,
            order.len() == 1,
        )
    }
}

/// The table rows of an SP3 file.
pub open spec fn sp3_rows(d: DescView, s: QcSP3FileSummary) -> Seq<RowView> {
    seq![
        ("Filename"@, d.2, true, true),
        ("Indexed by"@, "Agency"@, true, false),
        ("Version"@, spec_sp3_version_label(s.version), true, false),
        ("Agency"@, s.agency@, true, false),
        ("Timescale"@, spec_timescale_label(s.timescale), true, false),
        ("Orbit Type"@, s.orbit_type@, true, false),
        ("ECEF"@, s.frame@, true, false),
        ("Velocities"@, true_false(s.has_sv_velocities), true, false),
        ("Clock Offset"@, true_false(s.has_sv_clock_offsets), true, false),
        ("Clock Drift"@, true_false(s.has_sv_clock_drift), true, false),
        ("Clock Events (bumps)"@, yes_none(s.has_sv_clock_event), true, false),
        ("Satellite maneuvers"@, yes_none(s.has_sv_maneuver), true, false),
    ]
}

/// The blocks of the SP3 files listed in `order`, each on a page of its own.
pub open spec fn sp3_section(order: Seq<DescView>, m: Map<DescView, QcFileSummary>) -> Seq<
    BlockView,
>
    decreases order.len(),
{
    if order.len() == 0 {
        Seq::empty()
    } else {
        sp3_section(order.drop_last(), m) + seq![
            BlockView::PageBreak,
            BlockView::Table(sp3_rows(order.last(), m[order.last()]->SP3_0)),
        ]
    }
}

/// The summary of every RINEX file, then of every SP3 file, each in file
/// order.
pub open spec fn summary_pdf_blocks(m: Map<DescView, QcFileSummary>) -> Seq<BlockView> {
    rinex_section(sorted_listing(selected(m.dom(), false)), m) + sp3_section(
        sorted_listing(selected(m.dom(), true)),
        m,
    )
}

/// True when every SP3 file has an SP3 summary and every other file a RINEX
/// summary.
pub open spec fn summaries_consistent(m: Map<DescView, QcFileSummary>) -> bool {
    forall|k: DescView|
        #[trigger] m.contains_key(k) ==> if k.0 == QcProductType::PreciseOrbit {
            m[k] is SP3
        } else {
            m[k] is RINEX
        }
}

/// True when every SP3 file of the summary has an SP3 summary and every
/// other file a RINEX summary.
pub fn summaries_consistent_check(summary: &QcContextSummary) -> (b: bool)
    ensures
        b == summaries_consistent(summary.summaries@),
{
    let n = summary.summaries.len();
    let mut i: usize = 0;
    while i < n
        invariant
            i <= n,
            n == summary.summaries.pairs().len(),
            forall|j: int|
                0 <= j < i ==> entry_consistent(#[trigger] summary.summaries.pairs()[j]),
        decreases n - i,
    {
        let e = summary.summaries.entry(i);
        let orbit = matches!(e.0.product_type, QcProductType::PreciseOrbit);
        let ok = match &e.1 {
            QcFileSummary::SP3(_) => orbit,
            QcFileSummary::RINEX(_) => !orbit,
        };
        if !ok {
            proof {
                assert(summary.summaries@.contains_key(e.0@));
            }
            return false;
        }
        i = i + 1;
    }
    proof {
        let m = summary.summaries@;
        let p = summary.summaries.pairs();
        assert forall|k: DescView| #[trigger] m.contains_key(k) implies (if k.0 == QcProductType::PreciseOrbit {
            m[k] is SP3
        } else {
            m[k] is RINEX
        }) by {
            let j = choose|j: int| 0 <= j < p.len() && p[j].0@ == k;
            assert(entry_consistent(p[j]));
            assert(m[p[j].0@] == p[j].1);
        }
    }
    true
}

/// True when an entry's summary is of the kind its product type calls for.
pub open spec fn entry_consistent(e: (QcSourceDescriptor, QcFileSummary)) -> bool {
    if e.0.product_type == QcProductType::PreciseOrbit {
        e.1 is SP3
    } else {
        e.1 is RINEX
    }
}

/// Text of an optional time scale ("N.a" when there is none).
fn timescale_text_of(t: Option<TimeScale>) -> (s: String)
    ensures
        s@ == timescale_text(t),
{
    match t {
        Some(t) => timescale_label(t),
        None => String::from_str("N.a"),
    }
}

/// The table rows of a RINEX file.
fn rinex_rows_of(d: &QcSourceDescriptor, s: &QcRINEXFileSummary) -> (rows: Vec<PdfRow>)
    ensures
        rows_view(rows@) == rinex_rows(d@, *s),
{
    let mut rows: Vec<PdfRow> = Vec::new();
    push_row(&mut rows, "Filename", d.filename.clone(), true, true);
    push_row(&mut rows, "Format", String::from_str(d.product_type.label()), true, true);
    push_row(&mut rows, "Version", rinex_version_label(s.version), true, false);
    push_row(&mut rows, "Indexing", String::from_str(d.indexing.kind_name()), true, false);
    push_row(&mut rows, "Index", d.indexing.label(), true, false);
    push_row(&mut rows, "Timescale", timescale_text_of(s.timescale), true, false);
    let ghost head = rows_view(rows@);
    if let Some(r) = &s.receiver {
        push_row(&mut rows, "GNSS-Receiver", concat(&r.model, r.sn.as_str()), true, false);
    }
    let ghost with_receiver = rows_view(rows@);
    if let Some(a) = &s.antenna {
        push_row(&mut rows, "GNSS-Antenna", concat(&a.model, a.sn.as_str()), true, false);
    }
    let ghost with_antenna = rows_view(rows@);
    if let Some(m) = &s.geodetic_marker {
        match &m.number {
            Some(n) => {
                let named = concat(&m.name, "-");
                push_row(&mut rows, "Marker", concat(&named, n.as_str()), true, false);
            },
            None => {
                push_row(&mut rows, "Marker", m.name.clone(), true, false);
            },
        }
    }
    proof {
        assert(with_receiver =~= head + receiver_rows(s.receiver));
        assert(with_antenna =~= with_receiver + antenna_rows(s.antenna));
        assert(rows_view(rows@) =~= with_antenna + marker_rows(s.geodetic_marker));
    }
    rows
}

/// The time correction blocks of a RINEX file.
fn push_corrections(blocks: &mut Vec<PdfBlock>, c: &Vec<(TimeScale, TimeScale)>)
    ensures
        blocks_view(final(blocks)@) == blocks_view(old(blocks)@) + corrections_blocks(c@),
{
    if c.len() == 0 {
        proof {
            assert(blocks_view(blocks@) =~= blocks_view(old(blocks)@) + corrections_blocks(c@));
        }
        return ;
    }
    let sorted = sort_pairs(c);
    let mut rows: Vec<PdfRow> = Vec::new();
    push_row(&mut rows, "Target", String::from_str("Reference"), true, true);
    let mut i: usize = 0;
    while i < sorted.len()
        invariant
            i <= sorted@.len(),
            rows_view(rows@) == seq![("Target"@, "Reference"@, true, true)] + correction_rows(
                sorted@.subrange(0, i as int),
            ),
        decreases sorted@.len() - i,
    {
        let p = sorted[i];
        let row = PdfRow {
            label: timescale_label(p.0),
            value: timescale_label(p.1),
            label_bold: false,
            value_bold: false,
        };
        let ghost before = rows_view(rows@);
        rows.push(row);
        proof {
            assert(rows_view(rows@) =~= before.push(row@));
            assert(sorted@.subrange(0, i + 1) =~= sorted@.subrange(0, i as int).push(p));
            assert(correction_rows(sorted@.subrange(0, i + 1)) =~= correction_rows(
                sorted@.subrange(0, i as int),
            ).push(row@));
        }
        i = i + 1;
    }
    proof {
        assert(sorted@.subrange(0, sorted@.len() as int) =~= sorted@);
    }
    let ghost start = blocks_view(blocks@);
    push_block(blocks, PdfBlock::Break);
    push_block(blocks, PdfBlock::Heading(String::from_str("Time Corrections")));
    push_block(blocks, PdfBlock::Table(rows));
    proof {
        assert(blocks_view(blocks@) =~= start + corrections_blocks(c@));
    }
}

/// The table rows of an SP3 file.
fn sp3_rows_of(d: &QcSourceDescriptor, s: &QcSP3FileSummary) -> (rows: Vec<PdfRow>)
    ensures
        rows_view(rows@) == sp3_rows(d@, *s),
{
    let mut rows: Vec<PdfRow> = Vec::new();
    push_row(&mut rows, "Filename", d.filename.clone(), true, true);
    push_row(&mut rows, "Indexed by", String::from_str("Agency"), true, false);
    push_row(&mut rows, "Version", sp3_version_label(s.version), true, false);
    push_row(&mut rows, "Agency", s.agency.clone(), true, false);
    push_row(&mut rows, "Timescale", timescale_label(s.timescale), true, false);
    push_row(&mut rows, "Orbit Type", s.orbit_type.clone(), true, false);
    push_row(&mut rows, "ECEF", s.frame.clone(), true, false);
    push_row(&mut rows, "Velocities", true_false_text(s.has_sv_velocities), true, false);
    push_row(&mut rows, "Clock Offset", true_false_text(s.has_sv_clock_offsets), true, false);
    push_row(&mut rows, "Clock Drift", true_false_text(s.has_sv_clock_drift), true, false);
    push_row(&mut rows, "Clock Events (bumps)", yes_none_text(s.has_sv_clock_event), true, false);
    push_row(&mut rows, "Satellite maneuvers", yes_none_text(s.has_sv_maneuver), true, false);
    proof {
        assert(rows_view(rows@) =~= sp3_rows(d@, *s));
    }
    rows
}

impl QcContextSummary {
    /// Layout of the PDF summary of the input files: each RINEX file in
    /// turn, in file order, a page for each but the first; then each SP3
    /// file, in file order, on a page of its own.
    pub fn render_pdf(&self) -> (blocks: Vec<PdfBlock>)
        requires
            summaries_consistent(self.summaries@),
        ensures
            blocks_view(blocks@) == summary_pdf_blocks(self.summaries@),
    {
        let ghost m = self.summaries@;
        let rinex = sorted_descriptors(&self.summaries, false);
        let ghost rinex_order = desc_views(rinex@);
        let mut blocks: Vec<PdfBlock> = Vec::new();
        let mut i: usize = 0;
        proof {
            assert(rinex_order.subrange(0, 0) =~= Seq::<DescView>::empty());
        }
        while i < rinex.len()
            invariant
                i <= rinex@.len(),
                m == self.summaries@,
                summaries_consistent(m),
                rinex_order == desc_views(rinex@),
                is_sorted_listing(rinex_order, selected(m.dom(), false)),
                blocks_view(blocks@) == rinex_section(rinex_order.subrange(0, i as int), m),
            decreases rinex@.len() - i,
        {
            let d = &rinex[i];
            proof {
                assert(rinex_order[i as int] == d@);
                assert(rinex_order.contains(d@));
                assert(selected(m.dom(), false).contains(d@));
            }
            let ghost before = blocks_view(blocks@);
            match self.summaries.get(d) {
                Some(QcFileSummary::RINEX(s)) => {
                    if i > 0 {
                        push_block(&mut blocks, PdfBlock::PageBreak);
                    }
                    let rows = rinex_rows_of(d, s);
                    push_block(&mut blocks, PdfBlock::Table(rows));
                    push_corrections(&mut blocks, &s.v3_time_corrections);
                    proof {
                        let sub = rinex_order.subrange(0, i + 1);
                        assert(sub.drop_last() =~= rinex_order.subrange(0, i as int));
                        assert(sub.last() == d@);
                        assert(blocks_view(blocks@) =~= before + rinex_file_blocks(
                            d@,
                            *s,
                            i == 0,
                        ));
                    }
                },
                _ => {},
            }
            i = i + 1;
        }
        proof {
            assert(rinex_order.subrange(0, rinex_order.len() as int) =~= rinex_order);
        }
        let ghost rinex_blocks = blocks_view(blocks@);
        let orbits = sorted_descriptors(&self.summaries, true);
        let ghost orbit_order = desc_views(orbits@);
        let mut j: usize = 0;
        proof {
            assert(orbit_order.subrange(0, 0) =~= Seq::<DescView>::empty());
            assert(blocks_view(blocks@) =~= rinex_blocks + sp3_section(
                orbit_order.subrange(0, 0),
                m,
            ));
        }
        while j < orbits.len()
            invariant
                j <= orbits@.len(),
                m == self.summaries@,
                summaries_consistent(m),
                orbit_order == desc_views(orbits@),
                is_sorted_listing(orbit_order, selected(m.dom(), true)),
                blocks_view(blocks@) == rinex_blocks + sp3_section(
                    orbit_order.subrange(0, j as int),
                    m,
                ),
            decreases orbits@.len() - j,
        {
            let d = &orbits[j];
            proof {
                assert(orbit_order[j as int] == d@);
                assert(orbit_order.contains(d@));
                assert(selected(m.dom(), true).contains(d@));
            }
            let ghost before = blocks_view(blocks@);
            match self.summaries.get(d) {
                Some(QcFileSummary::SP3(s)) => {
                    push_block(&mut blocks, PdfBlock::PageBreak);
                    let rows = sp3_rows_of(d, s);
                    push_block(&mut blocks, PdfBlock::Table(rows));
                    proof {
                        let sub = orbit_order.subrange(0, j + 1);
                        assert(sub.drop_last() =~= orbit_order.subrange(0, j as int));
                        assert(sub.last() == d@);
                    }
                },
                _ => {},
            }
            j = j + 1;
        }
        proof {
            assert(orbit_order.subrange(0, orbit_order.len() as int) =~= orbit_order);
        }
        blocks
    }
}

} // verus!
