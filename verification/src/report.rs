//! The report of a processing run, and which of its parts each rendition
//! shows, in what order.
use crate::model::{Duration, Epoch};
use crate::nav::QcNavReport;
use crate::observations::QcObservationsReport;
use crate::orbit_proj::QcOrbitProjections;
use crate::rtk::QcRTKSummary;
use crate::sampling::QcObservationsSamplingGapHistogram;
use crate::summaries::QcContextSummary;
use vstd::prelude::*;

verus! {

/// Summary of a processing run.
#[derive(Debug, Clone, Copy)]
pub struct QcRunSummary {
    /// When the run was deployed.
    pub datetime: Epoch,
    /// Total processing time.
    pub run_duration: Duration,
    /// Number of jobs that were executed.
    pub num_jobs: usize,
}

impl Default for QcRunSummary {
    /// Summary of a run deployed at the reference epoch that has not
    /// processed anything yet.
    fn default() -> (s: Self)
        ensures
            s.datetime.tai_ns == 0,
            s.datetime.time_scale == crate::model::TimeScale::TAI,
            s.run_duration.total_ns == 0,
            s.num_jobs == 0,
    {
        QcRunSummary::new(Epoch::reference())
    }
}

impl QcRunSummary {
    /// Summary of a run deployed at `datetime` that has not processed
    /// anything yet.
    pub fn new(datetime: Epoch) -> (s: Self)
        ensures
            s.datetime == datetime,
            s.run_duration.total_ns == 0,
            s.num_jobs == 0,
    {
        QcRunSummary { datetime, run_duration: Duration::zero(), num_jobs: 0 }
    }
}

/// Clock residuals analysis of a run. Its content is not modelled: the
/// report only carries it, and gives it a page of its own.
#[derive(Debug, Clone, Copy)]
pub struct QcClockResiduals {}

/// Report of a processing run: each part is present when the run produced
/// it.
pub struct QcRunReport {
    pub run_summary: QcRunSummary,
    /// RTK network summary.
    pub rtk_summary: Option<QcRTKSummary>,
    /// Summary of the input files.
    pub summary: Option<QcContextSummary>,
    pub pseudo_range_observations: Option<QcObservationsReport>,
    pub carrier_phase_observations: Option<QcObservationsReport>,
    pub doppler_observations: Option<QcObservationsReport>,
    pub signal_power_observations: Option<QcObservationsReport>,
    pub geometry_free_combinations: Option<QcObservationsReport>,
    pub ionosphere_free_combinations: Option<QcObservationsReport>,
    pub melbourne_wubbena_combinations: Option<QcObservationsReport>,
    pub carrier_phase_residuals: Option<QcObservationsReport>,
    pub pseudo_range_residuals: Option<QcObservationsReport>,
    pub multipath_biases: Option<QcObservationsReport>,
    /// Sampling gaps of the pseudo range observations.
    pub pseudo_range_gap_histogram: Option<QcObservationsSamplingGapHistogram>,
    /// Sampling gaps of the carrier phase observations.
    pub carrier_phase_gap_histogram: Option<QcObservationsSamplingGapHistogram>,
    /// Projections of the SP3 orbits.
    pub sp3_orbit_proj: Option<QcOrbitProjections>,
    /// Navigation report.
    pub navi_report: Option<QcNavReport>,
    /// Clock residuals analysis.
    pub clock_residuals: Option<QcClockResiduals>,
}

impl QcRunReport {
    /// The report of a run deployed at `deploy_time`, with no part yet.
    pub fn new(deploy_time: Epoch) -> (r: Self)
        ensures
            r.run_summary.datetime == deploy_time,
            r.run_summary.run_duration.total_ns == 0,
            r.run_summary.num_jobs == 0,
            r.rtk_summary is None,
            r.summary is None,
            r.pseudo_range_observations is None,
            r.carrier_phase_observations is None,
            r.doppler_observations is None,
            r.signal_power_observations is None,
            r.geometry_free_combinations is None,
            r.ionosphere_free_combinations is None,
            r.melbourne_wubbena_combinations is None,
            r.carrier_phase_residuals is None,
            r.pseudo_range_residuals is None,
            r.multipath_biases is None,
            r.pseudo_range_gap_histogram is None,
            r.carrier_phase_gap_histogram is None,
            r.sp3_orbit_proj is None,
            r.navi_report is None,
            r.clock_residuals is None,
    {
        QcRunReport {
            run_summary: QcRunSummary::new(deploy_time),
            rtk_summary: None,
            summary: None,
            pseudo_range_observations: None,
            carrier_phase_observations: None,
            doppler_observations: None,
            signal_power_observations: None,
            geometry_free_combinations: None,
            ionosphere_free_combinations: None,
            melbourne_wubbena_combinations: None,
            carrier_phase_residuals: None,
            pseudo_range_residuals: None,
            multipath_biases: None,
            pseudo_range_gap_histogram: None,
            carrier_phase_gap_histogram: None,
            sp3_orbit_proj: None,
            navi_report: None,
            clock_residuals: None,
        }
    }
}

impl Default for QcRunReport {
    /// The report of a run deployed at the reference epoch, with no part.
    fn default() -> (r: Self)
        ensures
            r.run_summary.datetime.tai_ns == 0,
            r.run_summary.datetime.time_scale == crate::model::TimeScale::TAI,
            r.run_summary.run_duration.total_ns == 0,
            r.run_summary.num_jobs == 0,
            r.rtk_summary is None,
            r.summary is None,
            r.pseudo_range_observations is None,
            r.carrier_phase_observations is None,
            r.doppler_observations is None,
            r.signal_power_observations is None,
            r.geometry_free_combinations is None,
            r.ionosphere_free_combinations is None,
            r.melbourne_wubbena_combinations is None,
            r.carrier_phase_residuals is None,
            r.pseudo_range_residuals is None,
            r.multipath_biases is None,
            r.pseudo_range_gap_histogram is None,
            r.carrier_phase_gap_histogram is None,
            r.sp3_orbit_proj is None,
            r.navi_report is None,
            r.clock_residuals is None,
    {
        QcRunReport::new(Epoch::reference())
    }
}

/// The parts of the PDF document, in the order they are drawn.
#[derive(Debug, Clone, Copy, PartialEq, Eq, Structural)]
pub enum QcPdfPart {
    /// A short vertical space.
    Break,
    /// Starts a new page.
    PageBreak,
    /// The library name and version.
    Subtitle,
    /// The table of contents.
    TableOfContent,
    /// Summary of the input files.
    Summary,
    /// RTK network summary.
    RtkSummary,
    /// Navigation report.
    Navigation,
    PseudoRangeObservations,
    CarrierPhaseObservations,
    DopplerObservations,
    SignalPowerObservations,
    GeometryFreeCombinations,
    IonosphereFreeCombinations,
    MelbourneWubbenaCombinations,
    PseudoRangeResiduals,
    CarrierPhaseResiduals,
    PseudoRangeGapHistogram,
    CarrierPhaseGapHistogram,
    /// Projections of the SP3 orbits.
    OrbitProjections,
    /// Clock residuals analysis.
    ClockResiduals,
    Documentation,
    Credits,
}

/// A part on a page of its own, when `present`.
pub open spec fn page_if(present: bool, part: QcPdfPart) -> Seq<QcPdfPart> {
    if present {
        seq![QcPdfPart::PageBreak, part]
    } else {
        Seq::empty()
    }
}

/// The opening parts of the PDF document: subtitle, table of contents,
/// then the summaries and the navigation report that the report holds.
pub open spec fn pdf_front_parts(r: QcRunReport) -> Seq<QcPdfPart> {
    seq![QcPdfPart::Break, QcPdfPart::Subtitle, QcPdfPart::TableOfContent]
        + page_if(r.summary is Some, QcPdfPart::Summary)
        + page_if(r.rtk_summary is Some, QcPdfPart::RtkSummary)
        + page_if(r.navi_report is Some, QcPdfPart::Navigation)
}

/// The observation reports that the report holds.
pub open spec fn pdf_observation_parts(r: QcRunReport) -> Seq<QcPdfPart> {
    page_if(r.pseudo_range_observations is Some, QcPdfPart::PseudoRangeObservations)
        + page_if(r.carrier_phase_observations is Some, QcPdfPart::CarrierPhaseObservations)
        + page_if(r.doppler_observations is Some, QcPdfPart::DopplerObservations)
        + page_if(r.signal_power_observations is Some, QcPdfPart::SignalPowerObservations)
}

/// The combinations and residuals that the report holds.
pub open spec fn pdf_combination_parts(r: QcRunReport) -> Seq<QcPdfPart> {
    page_if(r.geometry_free_combinations is Some, QcPdfPart::GeometryFreeCombinations)
        + page_if(r.ionosphere_free_combinations is Some, QcPdfPart::IonosphereFreeCombinations)
        + page_if(r.melbourne_wubbena_combinations is Some, QcPdfPart::MelbourneWubbenaCombinations)
        + page_if(r.pseudo_range_residuals is Some, QcPdfPart::PseudoRangeResiduals)
        + page_if(r.carrier_phase_residuals is Some, QcPdfPart::CarrierPhaseResiduals)
}

/// The gap histograms, orbit projections and clock residuals that the
/// report holds.
pub open spec fn pdf_analysis_parts(r: QcRunReport) -> Seq<QcPdfPart> {
    page_if(r.pseudo_range_gap_histogram is Some, QcPdfPart::PseudoRangeGapHistogram)
        + page_if(r.carrier_phase_gap_histogram is Some, QcPdfPart::CarrierPhaseGapHistogram)
        + page_if(r.sp3_orbit_proj is Some, QcPdfPart::OrbitProjections)
        + page_if(r.clock_residuals is Some, QcPdfPart::ClockResiduals)
}

/// The closing parts: the gap histograms, orbit projections and clock
/// residuals that the report holds, then documentation and credits, each on
/// a page of its own.
pub open spec fn pdf_back_parts(r: QcRunReport) -> Seq<QcPdfPart> {
    pdf_analysis_parts(r) + seq![QcPdfPart::PageBreak, QcPdfPart::Documentation, QcPdfPart::PageBreak, QcPdfPart::Credits]
}

/// The parts of the PDF document of a report: the subtitle and the table of
/// contents; then each part that the report holds, on a page of its own, in
/// a fixed order; then the documentation and the credits, each on a page of
/// its own.
pub open spec fn spec_pdf_parts(r: QcRunReport) -> Seq<QcPdfPart> {
    pdf_front_parts(r) + pdf_observation_parts(r) + pdf_combination_parts(r) + pdf_back_parts(r)
}

/// Appends a part on a page of its own, when `present`.
fn push_page_if(parts: &mut Vec<QcPdfPart>, present: bool, part: QcPdfPart)
    ensures
        final(parts)@ == old(parts)@ + page_if(present, part),
{
    if present {
        parts.push(QcPdfPart::PageBreak);
        parts.push(part);
    }
    proof {
        assert(parts@ =~= old(parts)@ + page_if(present, part));
    }
}

/// The sections of the HTML document.
#[derive(Debug, Clone, Copy, PartialEq, Eq, Structural)]
pub enum QcHtmlSection {
    RunReport,
    Summary,
    RtkSummary,
    Observations,
    OrbitProjections,
    Navigation,
    Documentation,
    Sources,
    Credits,
}

impl QcHtmlSection {
    /// Element identifier of the section.
    pub open spec fn spec_target(self) -> Seq<char> {
        match self {
            QcHtmlSection::RunReport => "run-report"@,
            QcHtmlSection::Summary => "summary"@,
            QcHtmlSection::RtkSummary => "rtk-summary"@,
            QcHtmlSection::Observations => "observations"@,
            QcHtmlSection::OrbitProjections => "sp3-orbit-proj"@,
            QcHtmlSection::Navigation => "nav-report"@,
            QcHtmlSection::Documentation => "documentation"@,
            QcHtmlSection::Sources => "sources"@,
            QcHtmlSection::Credits => "credits"@,
        }
    }

    /// Element identifier of the section.
    pub fn target(&self) -> (s: &'static str)
        ensures
            s@ == self.spec_target(),
    {
        match self {
            QcHtmlSection::RunReport => "run-report",
            QcHtmlSection::Summary => "summary",
            QcHtmlSection::RtkSummary => "rtk-summary",
            QcHtmlSection::Observations => "observations",
            QcHtmlSection::OrbitProjections => "sp3-orbit-proj",
            QcHtmlSection::Navigation => "nav-report",
            QcHtmlSection::Documentation => "documentation",
            QcHtmlSection::Sources => "sources",
            QcHtmlSection::Credits => "credits",
        }
    }

    /// Text of the section's entry in the side menu.
    pub open spec fn spec_menu_label(self) -> Seq<char> {
        match self {
            QcHtmlSection::RunReport => "Run Report"@,
            QcHtmlSection::Summary => "Summary"@,
            QcHtmlSection::RtkSummary => "RTK Summary"@,
            QcHtmlSection::Observations => "Observations"@,
            QcHtmlSection::OrbitProjections => "SP3 Orbit Projections"@,
            QcHtmlSection::Navigation => "Navigation"@,
            QcHtmlSection::Documentation => "Documentation "@,
            QcHtmlSection::Sources => "Sources "@,
            QcHtmlSection::Credits => "Credits "@,
        }
    }

    /// Text of the section's entry in the side menu.
    pub fn menu_label(&self) -> (s: &'static str)
        ensures
            s@ == self.spec_menu_label(),
    {
        match self {
            QcHtmlSection::RunReport => "Run Report",
            QcHtmlSection::Summary => "Summary",
            QcHtmlSection::RtkSummary => "RTK Summary",
            QcHtmlSection::Observations => "Observations",
            QcHtmlSection::OrbitProjections => "SP3 Orbit Projections",
            QcHtmlSection::Navigation => "Navigation",
            QcHtmlSection::Documentation => "Documentation ",
            QcHtmlSection::Sources => "Sources ",
            QcHtmlSection::Credits => "Credits ",
        }
    }

    /// Heading of the section.
    pub open spec fn spec_heading(self) -> Seq<char> {
        match self {
            QcHtmlSection::RunReport => "Run Report"@,
            QcHtmlSection::Summary => "Summary"@,
            QcHtmlSection::RtkSummary => "RTK Summary"@,
            QcHtmlSection::Observations => "Observations"@,
            QcHtmlSection::OrbitProjections => "SP3 Orbit Projections"@,
            QcHtmlSection::Navigation => "NAV Report"@,
            QcHtmlSection::Documentation => "Documentation"@,
            QcHtmlSection::Sources => "Code sources"@,
            QcHtmlSection::Credits => "GNSS-QC is part of the RTK-rs framework for advanced GNSS and Geodesy applications"@,
        }
    }

    /// Heading of the section.
    pub fn heading(&self) -> (s: &'static str)
        ensures
            s@ == self.spec_heading(),
    {
        match self {
            QcHtmlSection::RunReport => "Run Report",
            QcHtmlSection::Summary => "Summary",
            QcHtmlSection::RtkSummary => "RTK Summary",
            QcHtmlSection::Observations => "Observations",
            QcHtmlSection::OrbitProjections => "SP3 Orbit Projections",
            QcHtmlSection::Navigation => "NAV Report",
            QcHtmlSection::Documentation => "Documentation",
            QcHtmlSection::Sources => "Code sources",
            QcHtmlSection::Credits => "GNSS-QC is part of the RTK-rs framework for advanced GNSS and Geodesy applications",
        }
    }
}

/// The section, when `present`.
pub open spec fn section_if(present: bool, s: QcHtmlSection) -> Seq<QcHtmlSection> {
    if present {
        seq![s]
    } else {
        Seq::empty()
    }
}

/// The entries of the side menu of the HTML document: the run report, each
/// part that the report holds, then documentation, sources and credits.
pub open spec fn spec_html_menu(r: QcRunReport) -> Seq<QcHtmlSection> {
    seq![QcHtmlSection::RunReport]
        + section_if(r.summary is Some, QcHtmlSection::Summary)
        + section_if(r.rtk_summary is Some, QcHtmlSection::RtkSummary)
        + section_if(r.pseudo_range_observations is Some, QcHtmlSection::Observations)
        + section_if(r.sp3_orbit_proj is Some, QcHtmlSection::OrbitProjections)
        + section_if(r.navi_report is Some, QcHtmlSection::Navigation)
        + seq![QcHtmlSection::Documentation, QcHtmlSection::Sources, QcHtmlSection::Credits]
}

/// The sections of the HTML document's content: as the menu, but for the
/// orbit projections, which come before the observations.
pub open spec fn spec_html_sections(r: QcRunReport) -> Seq<QcHtmlSection> {
    seq![QcHtmlSection::RunReport]
        + section_if(r.summary is Some, QcHtmlSection::Summary)
        + section_if(r.rtk_summary is Some, QcHtmlSection::RtkSummary)
        + section_if(r.sp3_orbit_proj is Some, QcHtmlSection::OrbitProjections)
        + section_if(r.pseudo_range_observations is Some, QcHtmlSection::Observations)
        + section_if(r.navi_report is Some, QcHtmlSection::Navigation)
        + seq![QcHtmlSection::Documentation, QcHtmlSection::Sources, QcHtmlSection::Credits]
}

/// Each section with whether it is the active one when the page opens: the
/// first one only.
pub open spec fn first_active(s: Seq<QcHtmlSection>) -> Seq<(QcHtmlSection, bool)> {
    s.map(|i: int, x: QcHtmlSection| (x, i == 0))
}

/// Pairs each section with whether it is the active one: the first only.
fn mark_first_active(v: &Vec<QcHtmlSection>) -> (r: Vec<(QcHtmlSection, bool)>)
    ensures
        r@ == first_active(v@),
{
    let mut r: Vec<(QcHtmlSection, bool)> = Vec::new();
    let mut i: usize = 0;
    while i < v.len()
        invariant
            i <= v@.len(),
            r@ == first_active(v@.subrange(0, i as int)),
        decreases v@.len() - i,
    {
        r.push((v[i], i == 0));
        proof {
            assert(first_active(v@.subrange(0, i + 1)) =~= first_active(v@.subrange(0, i as int)).push(
                (v@[i as int], i == 0),
            ));
        }
        i = i + 1;
    }
    proof {
        assert(v@.subrange(0, v@.len() as int) =~= v@);
    }
    r
}

/// Appends the section, when `present`.
fn push_section_if(v: &mut Vec<QcHtmlSection>, present: bool, s: QcHtmlSection)
    ensures
        final(v)@ == old(v)@ + section_if(present, s),
{
    if present {
        v.push(s);
    }
    proof {
        assert(v@ =~= old(v)@ + section_if(present, s));
    }
}

impl QcRunReport {
    /// Appends the opening parts of the PDF document.
    fn push_front_parts(&self, parts: &mut Vec<QcPdfPart>)
        ensures
            final(parts)@ == old(parts)@ + pdf_front_parts(*self),
    {
        let ghost start = parts@;
        parts.push(QcPdfPart::Break);
        parts.push(QcPdfPart::Subtitle);
        parts.push(QcPdfPart::TableOfContent);
        push_page_if(parts, self.summary.is_some(), QcPdfPart::Summary);
        push_page_if(parts, self.rtk_summary.is_some(), QcPdfPart::RtkSummary);
        push_page_if(parts, self.navi_report.is_some(), QcPdfPart::Navigation);
        proof {
            assert(parts@ =~= start + pdf_front_parts(*self));
        }
    }

    /// Appends the observation reports.
    fn push_observation_parts(&self, parts: &mut Vec<QcPdfPart>)
        ensures
            final(parts)@ == old(parts)@ + pdf_observation_parts(*self),
    {
        let ghost start = parts@;
        push_page_if(
            parts,
            self.pseudo_range_observations.is_some(),
            QcPdfPart::PseudoRangeObservations,
        );
        push_page_if(
            parts,
            self.carrier_phase_observations.is_some(),
            QcPdfPart::CarrierPhaseObservations,
        );
        push_page_if(parts, self.doppler_observations.is_some(), QcPdfPart::DopplerObservations);
        push_page_if(
            parts,
            self.signal_power_observations.is_some(),
            QcPdfPart::SignalPowerObservations,
        );
        proof {
            assert(parts@ =~= start + pdf_observation_parts(*self));
        }
    }

    /// Appends the combinations and residuals.
    fn push_combination_parts(&self, parts: &mut Vec<QcPdfPart>)
        ensures
            final(parts)@ == old(parts)@ + pdf_combination_parts(*self),
    {
        let ghost start = parts@;
        push_page_if(
            parts,
            self.geometry_free_combinations.is_some(),
            QcPdfPart::GeometryFreeCombinations,
        );
        push_page_if(
            parts,
            self.ionosphere_free_combinations.is_some(),
            QcPdfPart::IonosphereFreeCombinations,
        );
        push_page_if(
            parts,
            self.melbourne_wubbena_combinations.is_some(),
            QcPdfPart::MelbourneWubbenaCombinations,
        );
        push_page_if(parts, self.pseudo_range_residuals.is_some(), QcPdfPart::PseudoRangeResiduals);
        push_page_if(
            parts,
            self.carrier_phase_residuals.is_some(),
            QcPdfPart::CarrierPhaseResiduals,
        );
        proof {
            assert(parts@ =~= start + pdf_combination_parts(*self));
        }
    }

    /// Appends the gap histograms, orbit projections and clock residuals.
    fn push_analysis_parts(&self, parts: &mut Vec<QcPdfPart>)
        ensures
            final(parts)@ == old(parts)@ + pdf_analysis_parts(*self),
    {
        let ghost start = parts@;
        push_page_if(
            parts,
            self.pseudo_range_gap_histogram.is_some(),
            QcPdfPart::PseudoRangeGapHistogram,
        );
        push_page_if(
            parts,
            self.carrier_phase_gap_histogram.is_some(),
            QcPdfPart::CarrierPhaseGapHistogram,
        );
        push_page_if(parts, self.sp3_orbit_proj.is_some(), QcPdfPart::OrbitProjections);
        push_page_if(parts, self.clock_residuals.is_some(), QcPdfPart::ClockResiduals);
        proof {
            assert(parts@ =~= start + pdf_analysis_parts(*self));
        }
    }

    /// Appends the closing parts.
    fn push_back_parts(&self, parts: &mut Vec<QcPdfPart>)
        ensures
            final(parts)@ == old(parts)@ + pdf_back_parts(*self),
    {
        let ghost start = parts@;
        self.push_analysis_parts(parts);
        parts.push(QcPdfPart::PageBreak);
        parts.push(QcPdfPart::Documentation);
        parts.push(QcPdfPart::PageBreak);
        parts.push(QcPdfPart::Credits);
        proof {
            assert(parts@ =~= start + pdf_back_parts(*self));
        }
    }

    /// The parts of the PDF document of this report, in drawing order.
    pub fn render_pdf(&self) -> (parts: Vec<QcPdfPart>)
        ensures
            parts@ == spec_pdf_parts(*self),
    {
        let mut parts: Vec<QcPdfPart> = Vec::new();
        self.push_front_parts(&mut parts);
        self.push_observation_parts(&mut parts);
        self.push_combination_parts(&mut parts);
        self.push_back_parts(&mut parts);
        proof {
            assert(parts@ =~= spec_pdf_parts(*self));
        }
        parts
    }

    /// The entries of the side menu of the HTML document of this report,
    /// each with whether it is the active entry when the page opens: the
    /// run report's, which comes first.
    pub fn html_menu(&self) -> (menu: Vec<(QcHtmlSection, bool)>)
        ensures
            menu@ == first_active(spec_html_menu(*self)),
    {
        let mut v: Vec<QcHtmlSection> = Vec::new();
        v.push(QcHtmlSection::RunReport);
        push_section_if(&mut v, self.summary.is_some(), QcHtmlSection::Summary);
        push_section_if(&mut v, self.rtk_summary.is_some(), QcHtmlSection::RtkSummary);
        push_section_if(&mut v, self.pseudo_range_observations.is_some(), QcHtmlSection::Observations);
        push_section_if(&mut v, self.sp3_orbit_proj.is_some(), QcHtmlSection::OrbitProjections);
        push_section_if(&mut v, self.navi_report.is_some(), QcHtmlSection::Navigation);
        v.push(QcHtmlSection::Documentation);
        v.push(QcHtmlSection::Sources);
        v.push(QcHtmlSection::Credits);
        proof {
            assert(v@ =~= spec_html_menu(*self));
        }
        mark_first_active(&v)
    }

    /// The sections of the HTML document of this report, in page order,
    /// each with whether it is the active section when the page opens: the
    /// run report, which comes first.
    pub fn render_html(&self) -> (sections: Vec<(QcHtmlSection, bool)>)
        ensures
            sections@ == first_active(spec_html_sections(*self)),
    {
        let mut v: Vec<QcHtmlSection> = Vec::new();
        v.push(QcHtmlSection::RunReport);
        push_section_if(&mut v, self.summary.is_some(), QcHtmlSection::Summary);
        push_section_if(&mut v, self.rtk_summary.is_some(), QcHtmlSection::RtkSummary);
        push_section_if(&mut v, self.sp3_orbit_proj.is_some(), QcHtmlSection::OrbitProjections);
        push_section_if(&mut v, self.pseudo_range_observations.is_some(), QcHtmlSection::Observations);
        push_section_if(&mut v, self.navi_report.is_some(), QcHtmlSection::Navigation);
        v.push(QcHtmlSection::Documentation);
        v.push(QcHtmlSection::Sources);
        v.push(QcHtmlSection::Credits);
        proof {
            assert(v@ =~= spec_html_sections(*self));
        }
        mark_first_active(&v)
    }
}

} // verus!
