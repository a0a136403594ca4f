//! Layout of the PDF renditions, as plain values: the blocks of a page
//! (tables of label/value rows, headings, breaks) that a PDF writer then
//! draws one for one.
use crate::labels::{decimal, digit_char};
use vstd::prelude::*;

verus! {

/// One row of a two column table: a label and its value, each possibly in
/// bold type.
#[derive(Debug)]
pub struct PdfRow {
    pub label: String,
    pub value: String,
    pub label_bold: bool,
    pub value_bold: bool,
}

/// What a row shows: label, value, and whether each is bold.
pub type RowView = (Seq<char>, Seq<char>, bool, bool);

impl View for PdfRow {
    type V = RowView;

    open spec fn view(&self) -> RowView {
        (self.label@, self.value@, self.label_bold, self.value_bold)
    }
}

/// One block of a PDF page layout.
#[derive(Debug)]
pub enum PdfBlock {
    /// Starts a new page.
    PageBreak,
    /// Leaves one blank line.
    Break,
    /// A paragraph in bold type.
    Heading(String),
    /// A section title: bold type, small font.
    Title(String),
    /// A framed two column table.
    Table(Vec<PdfRow>),
}

/// What a block shows.
pub enum BlockView {
    PageBreak,
    Break,
    Heading(Seq<char>),
    Title(Seq<char>),
    Table(Seq<RowView>),
}

/// What a list of rows shows.
pub open spec fn rows_view(rows: Seq<PdfRow>) -> Seq<RowView> {
    rows.map_values(|r: PdfRow| r@)
}

impl View for PdfBlock {
    type V = BlockView;

    open spec fn view(&self) -> BlockView {
        match self {
            PdfBlock::PageBreak => BlockView::PageBreak,
            PdfBlock::Break => BlockView::Break,
            PdfBlock::Heading(s) => BlockView::Heading(s@),
            PdfBlock::Title(s) => BlockView::Title(s@),
            PdfBlock::Table(rows) => BlockView::Table(rows_view(rows@)),
        }
    }
}

/// What a list of blocks shows.
pub open spec fn blocks_view(blocks: Seq<PdfBlock>) -> Seq<BlockView> {
    blocks.map_values(|b: PdfBlock| b@)
}

/// Appends a row to a table.
pub fn push_row(rows: &mut Vec<PdfRow>, label: &str, value: String, label_bold: bool, value_bold: bool)
    ensures
        rows_view(final(rows)@) == rows_view(old(rows)@).push(
            (label@, value@, label_bold, value_bold),
        ),
{
    let row = PdfRow { label: String::from_str(label), value, label_bold, value_bold };
    rows.push(row);
    proof {
        assert(rows_view(rows@) =~= rows_view(old(rows)@).push(
            (label@, value@, label_bold, value_bold),
        ));
    }
}

/// Appends a block to a layout.
pub fn push_block(blocks: &mut Vec<PdfBlock>, block: PdfBlock)
    ensures
        blocks_view(final(blocks)@) == blocks_view(old(blocks)@).push(block@),
{
    let ghost b = block@;
    blocks.push(block);
    proof {
        assert(blocks_view(blocks@) =~= blocks_view(old(blocks)@).push(b));
    }
}

/// Text of a flag as "True" or "False".
pub open spec fn true_false(b: bool) -> Seq<char> {
    if b {
        "True"@
    } else {
        "False"@
    }
}

/// Text of a flag as "True" or "False".
pub fn true_false_text(b: bool) -> (s: String)
    ensures
        s@ == true_false(b),
{
    if b {
        String::from_str("True")
    } else {
        String::from_str("False")
    }
}

/// Text of a flag as "Yes" or "None".
pub open spec fn yes_none(b: bool) -> Seq<char> {
    if b {
        "Yes"@
    } else {
        "None"@
    }
}

/// Text of a flag as "Yes" or "None".
pub fn yes_none_text(b: bool) -> (s: String)
    ensures
        s@ == yes_none(b),
{
    if b {
        String::from_str("Yes")
    } else {
        String::from_str("None")
    }
}

/// Concatenation of two strings.
pub fn concat(a: &String, b: &str) -> (s: String)
    ensures
        s@ == a@ + b@,
{
    let mut s = a.clone();
    s.append(b);
    s
}

/// The decimal digit `d` as a one character string.
fn digit_text(d: usize) -> (s: String)
    requires
        d < 10,
    ensures
        s@ == seq![digit_char(d as nat)],
{
    let lit = if d == 0 {
        proof { reveal_strlit("0"); }
        "0"
    } else if d == 1 {
        proof { reveal_strlit("1"); }
        "1"
    } else if d == 2 {
        proof { reveal_strlit("2"); }
        "2"
    } else if d == 3 {
        proof { reveal_strlit("3"); }
        "3"
    } else if d == 4 {
        proof { reveal_strlit("4"); }
        "4"
    } else if d == 5 {
        proof { reveal_strlit("5"); }
        "5"
    } else if d == 6 {
        proof { reveal_strlit("6"); }
        "6"
    } else if d == 7 {
        proof { reveal_strlit("7"); }
        "7"
    } else if d == 8 {
        proof { reveal_strlit("8"); }
        "8"
    } else {
        proof { reveal_strlit("9"); }
        "9"
    };
    let s = String::from_str(lit);
    proof {
        assert(s@ =~= seq![digit_char(d as nat)]);
    }
    s
}

/// Decimal writing of a count, without leading zeros.
pub fn decimal_text(n: usize) -> (s: String)
    ensures
        s@ == decimal(n as nat),
    decreases n,
{
    if n < 10 {
        digit_text(n)
    } else {
        let head = decimal_text(n / 10);
        let tail = digit_text(n % 10);
        let mut s = head;
        s.append(tail.as_str());
        proof {
            assert(s@ =~= decimal((n / 10) as nat).push(digit_char((n % 10) as nat)));
        }
        s
    }
}

/// The strings of `items` separated by `sep`.
pub open spec fn join(items: Seq<Seq<char>>, sep: Seq<char>) -> Seq<char>
    decreases items.len(),
{
    if items.len() == 0 {
        Seq::empty()
    } else if items.len() == 1 {
        items[0]
    } else {
        join(items.drop_last(), sep) + sep + items.last()
    }
}

} // verus!
