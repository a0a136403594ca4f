//! PDF rendition of the RTK network summary: the rover and base stations,
//! listed by name, and how many of each.
use crate::keyed::AssocMap;
use crate::labels::decimal;
use crate::pdf::{
    blocks_view, decimal_text, join, push_block, push_row, rows_view, BlockView, PdfBlock, PdfRow,
    RowView,
};
use crate::rtk::QcRTKSummary;
use vstd::prelude::*;

verus! {

/// Names of the stations of a map, in the map's order.
pub open spec fn station_names<V>(m: AssocMap<String, V>) -> Seq<Seq<char>> {
    m.pairs().map_values(|p: (String, V)| p.0@)
}

/// Names of the stations of a map, in the map's order, separated by ", ".
pub fn join_names<V>(m: &AssocMap<String, V>) -> (s: String)
    ensures
        s@ == join(station_names(*m), ", "@),
{
    let n = m.len();
    let ghost names = station_names(*m);
    let mut s = String::new();
    let mut i: usize = 0;
    proof {
        assert(names.subrange(0, 0) =~= Seq::<Seq<char>>::empty());
    }
    while i < n
        invariant
            i <= n,
            n == m.pairs().len(),
            names == station_names(*m),
            s@ == join(names.subrange(0, i as int), ", "@),
        decreases n - i,
    {
        let e = m.entry(i);
        if i > 0 {
            s.append(", ");
        }
        s.append(e.0.as_str());
        proof {
            let sub = names.subrange(0, i + 1);
            assert(sub.drop_last() =~= names.subrange(0, i as int));
            assert(sub.last() == e.0@);
            if i == 0 {
                assert(s@ =~= e.0@);
            }
        }
        i = i + 1;
    }
    proof {
        assert(names.subrange(0, n as int) =~= names);
    }
    s
}

/// The rows of the RTK summary table.
pub open spec fn rtk_pdf_rows(r: QcRTKSummary) -> Seq<RowView> {
    seq![
        (
            "Rovers"@,
            if r.rovers.pairs().len() == 0 {
                "None"@
            } else {
                join(station_names(r.rovers), ", "@)
            },
            true,
            true,
        ),
        ("Total"@, decimal(r.rovers.pairs().len()), true, true),
        ("Bases"@, join(station_names(r.bases), ", "@), true, true),
        ("Total"@, decimal(r.bases.pairs().len()), true, true),
    ]
}

impl QcRTKSummary {
    /// Layout of the PDF RTK summary: a title, then a table of the rover
    /// stations and of the base stations, and how many of each.
    pub fn render_pdf(&self) -> (blocks: Vec<PdfBlock>)
        ensures
            blocks_view(blocks@) == seq![
                BlockView::Title("RTK Summary"@),
                BlockView::Table(rtk_pdf_rows(*self)),
            ],
    {
        let num_rovers = self.rovers.len();
        let num_bases = self.bases.len();
        let mut rows: Vec<PdfRow> = Vec::new();
        if num_rovers == 0 {
            push_row(&mut rows, "Rovers", String::from_str("None"), true, true);
        } else {
            push_row(&mut rows, "Rovers", join_names(&self.rovers), true, true);
        }
        push_row(&mut rows, "Total", decimal_text(num_rovers), true, true);
        push_row(&mut rows, "Bases", join_names(&self.bases), true, true);
        push_row(&mut rows, "Total", decimal_text(num_bases), true, true);
        let mut blocks: Vec<PdfBlock> = Vec::new();
        push_block(&mut blocks, PdfBlock::Title(String::from_str("RTK Summary")));
        push_block(&mut blocks, PdfBlock::Table(rows));
        proof {
            assert(rows_view(rows@) =~= rtk_pdf_rows(*self));
            assert(blocks_view(blocks@) =~= seq![
                BlockView::Title("RTK Summary"@),
                BlockView::Table(rtk_pdf_rows(*self)),
            ]);
        }
        blocks
    }
}

} // verus!
