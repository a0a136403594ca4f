//! The table of contents of the PDF document, and the fixed elements of its
//! pages (title, subtitle, separators, footer, documentation and credits).
use crate::model::QcProductType;
use crate::order::{
    chars_leq, lemma_named_leq_total_ordering, named_leq, named_lt, sort_strings, string_texts,
    texts_before, DescView,
};
use vstd::relations::sorted_by;
use crate::report::QcRunReport;
use vstd::prelude::*;

verus! {

/// A section of the table of contents: its name and its paragraphs.
#[derive(Debug)]
pub struct QcPdfSection {
    pub name: String,
    pub paragraphs: Vec<String>,
}

/// The texts of a list of strings.
pub open spec fn texts(v: Seq<String>) -> Seq<Seq<char>> {
    v.map_values(|s: String| s@)
}

impl View for QcPdfSection {
    type V = (Seq<char>, Seq<Seq<char>>);

    open spec fn view(&self) -> (Seq<char>, Seq<Seq<char>>) {
        (self.name@, texts(self.paragraphs@))
    }
}

impl QcPdfSection {
    /// A section with no paragraph.
    pub fn new(name: &str) -> (s: Self)
        ensures
            s@ == (name@, Seq::<Seq<char>>::empty()),
    {
        let s = QcPdfSection { name: String::from_str(name), paragraphs: Vec::new() };
        proof {
            assert(texts(s.paragraphs@) =~= Seq::<Seq<char>>::empty());
        }
        s
    }

    /// Appends a paragraph.
    pub fn add_paragraph(&mut self, paragraph: &str)
        ensures
            final(self)@ == (old(self)@.0, old(self)@.1.push(paragraph@)),
    {
        self.paragraphs.push(String::from_str(paragraph));
        proof {
            assert(texts(self.paragraphs@) =~= texts(old(self).paragraphs@).push(paragraph@));
        }
    }
}

impl Clone for QcPdfSection {
    fn clone(&self) -> (c: Self)
        ensures
            c@ == self@,
    {
        let mut paragraphs: Vec<String> = Vec::new();
        let mut i: usize = 0;
        while i < self.paragraphs.len()
            invariant
                i <= self.paragraphs@.len(),
                texts(paragraphs@) == texts(self.paragraphs@).subrange(0, i as int),
            decreases self.paragraphs@.len() - i,
        {
            let ghost before = texts(paragraphs@);
            paragraphs.push(self.paragraphs[i].clone());
            proof {
                assert(texts(paragraphs@) =~= before.push(self.paragraphs@[i as int]@));
                assert(texts(self.paragraphs@).subrange(0, i + 1) =~= texts(
                    self.paragraphs@,
                ).subrange(0, i as int).push(self.paragraphs@[i as int]@));
            }
            i = i + 1;
        }
        proof {
            assert(texts(self.paragraphs@).subrange(0, self.paragraphs@.len() as int) =~= texts(
                self.paragraphs@,
            ));
        }
        QcPdfSection { name: self.name.clone(), paragraphs }
    }
}

impl QcPdfSection {
    /// The lines of the section as drawn: its name, then its paragraphs in
    /// increasing order.
    pub fn render(&self) -> (lines: Vec<String>)
        ensures
            string_texts(lines@) == seq![self.name@] + self@.1.sort_by(chars_leq()),
    {
        let sorted = sort_strings(&self.paragraphs);
        let mut lines: Vec<String> = Vec::new();
        lines.push(self.name.clone());
        let mut i: usize = 0;
        proof {
            assert(texts(self.paragraphs@) =~= string_texts(self.paragraphs@));
            assert(string_texts(lines@) =~= seq![self.name@] + string_texts(sorted@).subrange(0, 0));
        }
        while i < sorted.len()
            invariant
                i <= sorted@.len(),
                string_texts(lines@) == seq![self.name@] + string_texts(sorted@).subrange(
                    0,
                    i as int,
                ),
            decreases sorted@.len() - i,
        {
            let ghost before = string_texts(lines@);
            lines.push(sorted[i].clone());
            proof {
                assert(string_texts(lines@) =~= before.push(sorted@[i as int]@));
                assert(string_texts(sorted@).subrange(0, i + 1) =~= string_texts(
                    sorted@,
                ).subrange(0, i as int).push(sorted@[i as int]@));
            }
            i = i + 1;
        }
        proof {
            assert(string_texts(sorted@).subrange(0, sorted@.len() as int) =~= string_texts(
                sorted@,
            ));
        }
        lines
    }
}

/// A chapter of the table of contents: its name and its sections.
#[derive(Debug)]
pub struct QcPdfChapter {
    pub name: String,
    pub sections: Vec<QcPdfSection>,
}

/// What a list of sections shows.
pub open spec fn section_views(v: Seq<QcPdfSection>) -> Seq<(Seq<char>, Seq<Seq<char>>)> {
    v.map_values(|s: QcPdfSection| s@)
}

impl QcPdfChapter {
    /// A chapter with no section.
    pub fn new(name: &str) -> (c: Self)
        ensures
            c.name@ == name@,
            c.sections@.len() == 0,
    {
        QcPdfChapter { name: String::from_str(name), sections: Vec::new() }
    }

    /// Appends a section.
    pub fn add_section(&mut self, section: QcPdfSection)
        ensures
            final(self).name == old(self).name,
            final(self).sections@ == old(self).sections@.push(section),
    {
        self.sections.push(section);
    }
}

impl QcPdfChapter {
    /// The sections of the chapter in the order they are drawn under its
    /// name: by name, then by paragraphs.
    pub fn render(&self) -> (sections: Vec<QcPdfSection>)
        ensures
            section_views(sections@) == section_views(self.sections@).sort_by(named_leq()),
    {
        let ghost src = section_views(self.sections@);
        let mut r: Vec<QcPdfSection> = Vec::new();
        let mut i: usize = 0;
        proof {
            assert(section_views(r@) =~= src.subrange(0, 0));
        }
        while i < self.sections.len()
            invariant
                i <= self.sections@.len(),
                src == section_views(self.sections@),
                sorted_by(section_views(r@), named_leq()),
                section_views(r@).to_multiset() == src.subrange(0, i as int).to_multiset(),
            decreases self.sections@.len() - i,
        {
            let x = &self.sections[i];
            let mut p: usize = 0;
            while p < r.len() && !texts_before(&x.name, &x.paragraphs, &r[p].name, &r[p].paragraphs)
                invariant
                    p <= r@.len(),
                    forall|q: int| 0 <= q < p ==> !named_lt(x@, #[trigger] section_views(r@)[q]),
                decreases r@.len() - p,
            {
                proof {
                    assert(texts(x.paragraphs@) =~= string_texts(x.paragraphs@));
                    assert(texts(r@[p as int].paragraphs@) =~= string_texts(r@[p as int].paragraphs@));
                }
                p = p + 1;
            }
            let ghost old_r = section_views(r@);
            proof {
                lemma_named_leq_total_ordering();
                if p < old_r.len() {
                    assert(texts(x.paragraphs@) =~= string_texts(x.paragraphs@));
                    assert(texts(r@[p as int].paragraphs@) =~= string_texts(r@[p as int].paragraphs@));
                    assert(named_lt(x@, old_r[p as int]));
                    assert(named_leq()(x@, old_r[p as int]));
                    assert forall|q: int| p <= q < old_r.len() implies #[trigger] named_leq()(
                        x@,
                        old_r[q],
                    ) by {
                        if q > p {
                            assert(named_leq()(old_r[p as int], old_r[q]));
                        }
                    }
                }
                assert forall|q: int| 0 <= q < p implies #[trigger] named_leq()(old_r[q], x@) by {
                    assert(!named_lt(x@, old_r[q]));
                    assert(named_leq()(x@, old_r[q]) || named_leq()(old_r[q], x@));
                }
            }
            r.insert(p, x.clone());
            proof {
                let nr = section_views(r@);
                assert(nr =~= old_r.insert(p as int, x@));
                assert forall|a: int, b: int| 0 <= a < b < nr.len() implies #[trigger] named_leq()(
                    nr[a],
                    nr[b],
                ) by {
                    if b < p {
                        assert(named_leq()(old_r[a], old_r[b]));
                    } else if b == p {
                        assert(named_leq()(old_r[a], x@));
                    } else if a < p {
                        assert(nr[b] == old_r[b - 1]);
                        assert(named_leq()(old_r[a], x@));
                        assert(named_leq()(x@, old_r[b - 1]));
                    } else if a == p {
                        assert(nr[b] == old_r[b - 1]);
                    } else {
                        assert(named_leq()(old_r[a - 1], old_r[b - 1]));
                    }
                }
                assert(src.subrange(0, i + 1) =~= src.subrange(0, i as int).push(x@));
                vstd::seq_lib::to_multiset_insert(old_r, p as int, x@);
                vstd::seq_lib::to_multiset_build(src.subrange(0, i as int), x@);
            }
            i = i + 1;
        }
        proof {
            assert(src.subrange(0, src.len() as int) =~= src);
            lemma_named_leq_total_ordering();
            src.lemma_sort_by_ensures(named_leq());
            vstd::seq_lib::lemma_sorted_unique(section_views(r@), src.sort_by(named_leq()), named_leq());
        }
        r
    }
}

/// True when the files of a summary map include a RINEX file.
pub open spec fn has_rinex_file<V>(m: Map<DescView, V>) -> bool {
    exists|k: DescView| #[trigger] m.contains_key(k) && k.0 != QcProductType::PreciseOrbit
}

/// True when the files of a summary map include an SP3 file.
pub open spec fn has_sp3_file<V>(m: Map<DescView, V>) -> bool {
    exists|k: DescView| #[trigger] m.contains_key(k) && k.0 == QcProductType::PreciseOrbit
}

/// Names of the sections of the "Summary" chapter: the run report, then
/// "RINEX" when the report summarizes RINEX files, then "SP3" when it
/// summarizes SP3 files.
pub open spec fn summary_section_names(r: QcRunReport) -> Seq<Seq<char>> {
    seq!["Run report"@] + match r.summary {
        Some(s) => (if has_rinex_file(s.summaries@) {
            seq!["RINEX"@]
        } else {
            Seq::empty()
        }) + (if has_sp3_file(s.summaries@) {
            seq!["SP3"@]
        } else {
            Seq::empty()
        }),
        None => Seq::empty(),
    }
}

/// True when the report summarizes at least one file whose product type is
/// `rinex` (true: a RINEX product, anything but SP3 orbits; false: SP3
/// orbits).
pub open spec fn summarizes_file(r: QcRunReport, rinex: bool) -> bool {
    &&& r.summary is Some
    &&& exists|k: DescView|
        #[trigger] r.summary.unwrap().summaries@.contains_key(k) && (k.0
            != QcProductType::PreciseOrbit) == rinex
}

/// The "Summary" chapter starts with the run report; it has a "RINEX"
/// section exactly when the report summarizes a RINEX file, and an "SP3"
/// section exactly when it summarizes an SP3 file.
pub proof fn law_summary_sections(r: QcRunReport)
    ensures
        summary_section_names(r)[0] == "Run report"@,
        summary_section_names(r).contains("RINEX"@) <==> summarizes_file(r, true),
        summary_section_names(r).contains("SP3"@) <==> summarizes_file(r, false),
{
    reveal_strlit("Run report");
    reveal_strlit("RINEX");
    reveal_strlit("SP3");
    let n = summary_section_names(r);
    assert(n[0] == "Run report"@);
    if let Some(s) = r.summary {
        let m = s.summaries@;
        if has_rinex_file(m) {
            let k = choose|k: DescView| #[trigger] m.contains_key(k) && k.0 != QcProductType::PreciseOrbit;
            assert(m.contains_key(k) && (k.0 != QcProductType::PreciseOrbit) == true);
            assert(n[1] == "RINEX"@);
        }
        if has_sp3_file(m) {
            let k = choose|k: DescView| #[trigger] m.contains_key(k) && k.0 == QcProductType::PreciseOrbit;
            assert(m.contains_key(k) && (k.0 != QcProductType::PreciseOrbit) == false);
            assert(n[n.len() - 1] == "SP3"@);
        }
        if summarizes_file(r, true) {
            let k = choose|k: DescView|
                #[trigger] m.contains_key(k) && (k.0 != QcProductType::PreciseOrbit) == true;
            assert(has_rinex_file(m));
        }
        if summarizes_file(r, false) {
            let k = choose|k: DescView|
                #[trigger] m.contains_key(k) && (k.0 != QcProductType::PreciseOrbit) == false;
            assert(has_sp3_file(m));
        }
        if n.contains("RINEX"@) {
            let i = choose|i: int| 0 <= i < n.len() && n[i] == "RINEX"@;
            if !has_rinex_file(m) {
                assert(i == 0 || n[i] == "SP3"@);
                assert(false);
            }
        }
        if n.contains("SP3"@) {
            let i = choose|i: int| 0 <= i < n.len() && n[i] == "SP3"@;
            if !has_sp3_file(m) {
                assert(i == 0 || n[i] == "RINEX"@);
                assert(false);
            }
        }
    } else {
        assert(n =~= seq!["Run report"@]);
    }
}

/// The table of contents of the PDF document.
#[derive(Debug)]
pub struct QcPdfTableOfContent {
    pub chapters: Vec<QcPdfChapter>,
}

impl QcPdfTableOfContent {
    /// The table of contents of a report: a single "Summary" chapter, whose
    /// sections have no paragraph.
    pub fn new(report: &QcRunReport) -> (t: Self)
        ensures
            t.chapters@.len() == 1,
            t.chapters@[0].name@ == "Summary"@,
            section_views(t.chapters@[0].sections@) == summary_section_names(*report).map_values(
                |n: Seq<char>| (n, Seq::<Seq<char>>::empty()),
            ),
            t.chapters@[0].sections@[0]@.0 == "Run report"@,
            (exists|i: int|
                0 <= i < t.chapters@[0].sections@.len() && (#[trigger] t.chapters@[0].sections@[i])@.0
                    == "RINEX"@) <==> summarizes_file(*report, true),
            (exists|i: int|
                0 <= i < t.chapters@[0].sections@.len() && (#[trigger] t.chapters@[0].sections@[i])@.0
                    == "SP3"@) <==> summarizes_file(*report, false),
    {
        let mut chapter = QcPdfChapter::new("Summary");
        chapter.add_section(QcPdfSection::new("Run report"));
        let ghost first = section_views(chapter.sections@);
        if let Some(summary) = &report.summary {
            let n = summary.summaries.len();
            let mut has_rinex = false;
            let mut has_sp3 = false;
            let mut i: usize = 0;
            while i < n
                invariant
                    i <= n,
                    n == summary.summaries.pairs().len(),
                    forall|j: int|
                        0 <= j < summary.summaries.pairs().len() ==> #[trigger] summary.summaries@.contains_key(
                            summary.summaries.pairs()[j].0@,
                        ),
                    has_rinex == exists|j: int|
                        0 <= j < i && #[trigger] summary.summaries.pairs()[j].0.product_type
                            != QcProductType::PreciseOrbit,
                    has_sp3 == exists|j: int|
                        0 <= j < i && #[trigger] summary.summaries.pairs()[j].0.product_type
                            == QcProductType::PreciseOrbit,
                decreases n - i,
            {
                let e = summary.summaries.entry(i);
                if e.0.product_type.is_rinex_product() {
                    has_rinex = true;
                } else {
                    has_sp3 = true;
                }
                i = i + 1;
            }
            proof {
                let m = summary.summaries@;
                let p = summary.summaries.pairs();
                if has_rinex {
                    let j = choose|j: int|
                        0 <= j < n && #[trigger] p[j].0.product_type != QcProductType::PreciseOrbit;
                    assert(m.contains_key(p[j].0@));
                }
                if has_sp3 {
                    let j = choose|j: int|
                        0 <= j < n && #[trigger] p[j].0.product_type == QcProductType::PreciseOrbit;
                    assert(m.contains_key(p[j].0@));
                }
                if has_rinex_file(m) {
                    let k = choose|k: DescView| #[trigger] m.contains_key(k) && k.0 != QcProductType::PreciseOrbit;
                    let j = choose|j: int| 0 <= j < p.len() && p[j].0@ == k;
                    assert(p[j].0.product_type == k.0);
                }
                if has_sp3_file(m) {
                    let k = choose|k: DescView| #[trigger] m.contains_key(k) && k.0 == QcProductType::PreciseOrbit;
                    let j = choose|j: int| 0 <= j < p.len() && p[j].0@ == k;
                    assert(p[j].0.product_type == k.0);
                }
            }
            if has_rinex {
                chapter.add_section(QcPdfSection::new("RINEX"));
            }
            if has_sp3 {
                chapter.add_section(QcPdfSection::new("SP3"));
            }
        }
        proof {
            assert(section_views(chapter.sections@) =~= summary_section_names(*report).map_values(
                |n: Seq<char>| (n, Seq::<Seq<char>>::empty()),
            ));
        }
        proof {
            law_summary_sections(*report);
            let names = summary_section_names(*report);
            let secs = chapter.sections@;
            assert forall|i: int| 0 <= i < secs.len() implies (#[trigger] secs[i])@.0 == names[i] by {
                assert(section_views(secs)[i] == secs[i]@);
            }
            assert(secs.len() == names.len());
            assert(secs[0]@.0 == names[0]);
            if names.contains("RINEX"@) {
                let i = choose|i: int| 0 <= i < names.len() && names[i] == "RINEX"@;
                assert(secs[i]@.0 == "RINEX"@);
            }
            if exists|i: int| 0 <= i < secs.len() && (#[trigger] secs[i])@.0 == "RINEX"@ {
                let i = choose|i: int| 0 <= i < secs.len() && (#[trigger] secs[i])@.0 == "RINEX"@;
                assert(names[i] == "RINEX"@);
            }
            if names.contains("SP3"@) {
                let i = choose|i: int| 0 <= i < names.len() && names[i] == "SP3"@;
                assert(secs[i]@.0 == "SP3"@);
            }
            if exists|i: int| 0 <= i < secs.len() && (#[trigger] secs[i])@.0 == "SP3"@ {
                let i = choose|i: int| 0 <= i < secs.len() && (#[trigger] secs[i])@.0 == "SP3"@;
                assert(names[i] == "SP3"@);
            }
        }
        let mut chapters: Vec<QcPdfChapter> = Vec::new();
        chapters.push(chapter);
        QcPdfTableOfContent { chapters }
    }
}

/// The credits page.
#[derive(Debug, Clone, Copy)]
pub struct QcPdfCredits {}

impl QcPdfCredits {
    pub fn new() -> (c: Self)
        ensures
            c == (QcPdfCredits {}),
    {
        QcPdfCredits {}
    }

    /// Text of the credits page.
    pub fn text(&self) -> (s: &'static str)
        ensures
            s@ == "Credits"@,
    {
        "Credits"
    }
}

/// The documentation page.
#[derive(Debug, Clone, Copy)]
pub struct QcPdfDocumentation {}

impl QcPdfDocumentation {
    pub fn new() -> (d: Self)
        ensures
            d == (QcPdfDocumentation {}),
    {
        QcPdfDocumentation {}
    }

    /// Text of the documentation page.
    pub fn text(&self) -> (s: &'static str)
        ensures
            s@ == "Documentation"@,
    {
        "Documentation"
    }
}

/// A horizontal rule across the page, followed by a blank line.
#[derive(Debug, Clone, Copy)]
pub struct QcPdfVerticalSeparator {}

impl QcPdfVerticalSeparator {
    pub fn new() -> (s: Self)
        ensures
            s == (QcPdfVerticalSeparator {}),
    {
        QcPdfVerticalSeparator {}
    }

    /// Text of the rule.
    pub fn rule(&self) -> (s: &'static str)
        ensures
            s@ == "___________________________________________________"@,
    {
        "___________________________________________________"
    }
}

/// The document title.
#[derive(Debug, Clone, Copy)]
pub struct QcPdfTitle {}

impl QcPdfTitle {
    /// Text of the title.
    pub fn text() -> (s: &'static str)
        ensures
            s@ == "GNSS Quality Control Report"@,
    {
        "GNSS Quality Control Report"
    }
}

/// The document subtitle: the library name and version.
#[derive(Debug, Clone, Copy)]
pub struct QcPdfSubtitle {}

impl QcPdfSubtitle {
    /// Text of the subtitle: "lib-gnss-qc v" and the version.
    pub fn text(version: &str) -> (s: String)
        ensures
            s@ == "lib-gnss-qc v"@ + version@,
    {
        let mut s = String::from_str("lib-gnss-qc v");
        s.append(version);
        s
    }
}

/// The page footer: it counts the pages it decorates.
#[derive(Debug, Clone, Copy)]
pub struct QcPdfFooter {
    page: usize,
}

impl QcPdfFooter {
    /// A footer that has decorated no page yet.
    pub fn new() -> (f: Self)
        ensures
            f.page() == 0,
    {
        QcPdfFooter { page: 0 }
    }

    /// Number of pages decorated so far.
    pub closed spec fn page(self) -> usize {
        self.page
    }

    /// Number of pages decorated so far.
    pub fn pages(&self) -> (n: usize)
        ensures
            n == self.page(),
    {
        self.page
    }

    /// Counts one more page; returns its number.
    pub fn decorate_page(&mut self) -> (n: usize)
        requires
            old(self).page() < usize::MAX,
        ensures
            final(self).page() == old(self).page() + 1,
            n == final(self).page(),
    {
        self.page = self.page + 1;
        self.page
    }

    /// Text of the footer: "Page " and the page number.
    pub fn generate_footer(&self) -> (s: String)
        ensures
            s@ == "Page "@ + crate::labels::decimal(self.page() as nat),
    {
        let mut s = String::from_str("Page ");
        let n = crate::pdf::decimal_text(self.page);
        s.append(n.as_str());
        s
    }
}

} // verus!
