use gnss_qc::assets::{QcReport, PAGE_CSS, PAGE_JAVASCRIPT};
use gnss_qc::keyed::AssocMap;
use gnss_qc::header::{QcSerializedRINEXHeader, RinexHeader, RinexType, RinexVersion};
use gnss_qc::model::{Carrier, Constellation, Duration, Epoch, FloatBits, QcIndexing, QcProductType, QcSourceDescriptor, TimeScale, SV};
use gnss_qc::nav::{QcNavReport, QcSerializedEphemeris, QcSerializedSignal};
use gnss_qc::observations::{QcObservationsReport, TemporalData};
use gnss_qc::orbit_proj::{QcOrbitProjections, QcPreciseState, QcSerializedPreciseState};
use gnss_qc::orbital::{constellation_timescale, select_ephemeris, EphemerisCandidate, OrbitalProjections, OrbitResidualProjects, Projection};
use gnss_qc::pdf::{decimal_text, PdfBlock};
use gnss_qc::pdf_toc::{QcPdfChapter, QcPdfFooter, QcPdfSection, QcPdfSubtitle, QcPdfTableOfContent};
use gnss_qc::rendering::{QcError, QcPlotsPerPage, QcRenderingColorMap, QcRenderingOptions};
use gnss_qc::report::{QcClockResiduals, QcHtmlSection, QcPdfPart, QcRunReport};
use gnss_qc::rover::Report as RoverReport;
use gnss_qc::rovers::Report as RoversReport;
use gnss_qc::rtk::QcRTKSummary;
use gnss_qc::sampling::{QcObservationsSamplingGapHistogram, QcSamplingHistogramAnalysis};
use gnss_qc::selector::RadioLabel;
use gnss_qc::source_observations::Report as SourceReport;
use gnss_qc::summaries::QcContextSummary;

use gnss_qc::model::Frame;

const ITRF93: Frame = Frame {
    ephemeris_id: 399,
    orientation_id: 3000,
    force_inertial: false,
    mu_km3_s2: None,
    shape: None,
    frozen_epoch: None,
};

fn epoch(ns: i128) -> Epoch {
    Epoch { tai_ns: ns, time_scale: TimeScale::GPST }
}

fn bits(x: f64) -> FloatBits {
    FloatBits { bits: x.to_bits() }
}

fn km(entries: &[(&str, f64)]) -> AssocMap<String, FloatBits> {
    let mut m = AssocMap::new();
    for (name, d) in entries {
        m.insert(name.to_string(), bits(*d));
    }
    m
}

fn station(name: &str, known: bool) -> QcSerializedRINEXHeader {
    QcSerializedRINEXHeader {
        indexing: QcIndexing::GeodeticMarker(name.to_string()),
        data: RinexHeader {
            version: RinexVersion { major: 3, minor: 5 },
            rinex_type: RinexType::ObservationData,
            rx_position: if known { Some((bits(1.0), bits(2.0), bits(3.0))) } else { None },
            rcvr: None,
            rcvr_antenna: None,
            geodetic_marker: None,
            obs: None,
            nav: None,
        },
    }
}

#[test]
fn run_report_parts() {
    let mut report = QcRunReport::new(epoch(42));
    assert_eq!(report.run_summary.datetime.tai_ns, 42);
    assert_eq!(report.run_summary.num_jobs, 0);
    assert_eq!(
        report.render_pdf(),
        vec![QcPdfPart::Break, QcPdfPart::Subtitle, QcPdfPart::TableOfContent, QcPdfPart::PageBreak, QcPdfPart::Documentation, QcPdfPart::PageBreak, QcPdfPart::Credits]
    );
    report.summary = Some(QcContextSummary::new(ITRF93));
    report.doppler_observations = Some(QcObservationsReport::new("Doppler"));
    report.sp3_orbit_proj = Some(QcOrbitProjections::from_precise_state(&QcSerializedPreciseState {
        indexing: QcIndexing::Agency("IGS".into()),
        data: QcPreciseState { sv: SV { prn: 1, constellation: Constellation::GPS }, epoch: epoch(0), position_km: (bits(0.0), bits(0.0), bits(0.0)) },
    }));
    let parts = report.render_pdf();
    assert_eq!(
        parts,
        vec![
            QcPdfPart::Break, QcPdfPart::Subtitle, QcPdfPart::TableOfContent,
            QcPdfPart::PageBreak, QcPdfPart::Summary,
            QcPdfPart::PageBreak, QcPdfPart::DopplerObservations,
            QcPdfPart::PageBreak, QcPdfPart::OrbitProjections,
            QcPdfPart::PageBreak, QcPdfPart::Documentation, QcPdfPart::PageBreak, QcPdfPart::Credits,
        ]
    );
    report.pseudo_range_observations = Some(QcObservationsReport::new("PR"));
    let menu = report.html_menu();
    assert_eq!(
        menu.iter().map(|e| e.0).collect::<Vec<_>>(),
        vec![QcHtmlSection::RunReport, QcHtmlSection::Summary, QcHtmlSection::Observations, QcHtmlSection::OrbitProjections, QcHtmlSection::Documentation, QcHtmlSection::Sources, QcHtmlSection::Credits]
    );
    assert_eq!(menu.iter().filter(|e| e.1).count(), 1);
    assert!(menu[0].1);
    let sections = report.render_html();
    assert_eq!(
        sections.iter().map(|e| e.0).collect::<Vec<_>>(),
        vec![QcHtmlSection::RunReport, QcHtmlSection::Summary, QcHtmlSection::OrbitProjections, QcHtmlSection::Observations, QcHtmlSection::Documentation, QcHtmlSection::Sources, QcHtmlSection::Credits]
    );
    assert_eq!(sections.iter().map(|e| e.1).collect::<Vec<_>>(), vec![true, false, false, false, false, false, false]);
    assert_eq!(QcHtmlSection::OrbitProjections.target(), "sp3-orbit-proj");
    assert_eq!(QcHtmlSection::Navigation.heading(), "NAV Report");
    assert_eq!(QcHtmlSection::Sources.menu_label(), "Sources ");
    let r: &QcReport = &report;
    assert_eq!(r.page_css(), PAGE_CSS);
    assert!(r.javascript().contains("sidebar"));
    assert_eq!(r.javascript(), PAGE_JAVASCRIPT);
}

#[test]
fn table_of_content_sections() {
    let mut report = QcRunReport::new(epoch(0));
    let toc = QcPdfTableOfContent::new(&report);
    assert_eq!(toc.chapters.len(), 1);
    assert_eq!(toc.chapters[0].name, "Summary");
    assert_eq!(toc.chapters[0].sections.len(), 1);
    assert_eq!(toc.chapters[0].sections[0].name, "Run report");
    let mut summary = QcContextSummary::new(ITRF93);
    let sp3 = gnss_qc::header::Sp3Header {
        version: gnss_qc::header::Sp3Version::D,
        coord_system: "ITRF".into(),
        orbit_type: gnss_qc::header::OrbitType::EXT,
        agency: "COD".into(),
        timescale: TimeScale::GPST,
    };
    summary.latch_sp3(QcSourceDescriptor { product_type: QcProductType::PreciseOrbit, indexing: QcIndexing::Agency("COD".into()), filename: "cod.sp3".into() }, &sp3);
    report.summary = Some(summary);
    let toc = QcPdfTableOfContent::new(&report);
    let names: Vec<&str> = toc.chapters[0].sections.iter().map(|s| s.name.as_str()).collect();
    assert_eq!(names, vec!["Run report", "SP3"]);
}

#[test]
fn sections_and_chapters_render_sorted() {
    let mut section = QcPdfSection::new("Signals");
    section.add_paragraph("phase");
    section.add_paragraph("doppler");
    section.add_paragraph("code");
    assert_eq!(section.render(), vec!["Signals", "code", "doppler", "phase"]);
    let mut chapter = QcPdfChapter::new("Analysis");
    let mut b = QcPdfSection::new("B");
    b.add_paragraph("x");
    let mut a2 = QcPdfSection::new("A");
    a2.add_paragraph("z");
    let mut a1 = QcPdfSection::new("A");
    a1.add_paragraph("y");
    chapter.add_section(b);
    chapter.add_section(a2);
    chapter.add_section(a1);
    let sorted = chapter.render();
    let labels: Vec<(String, String)> = sorted.iter().map(|s| (s.name.clone(), s.paragraphs[0].clone())).collect();
    assert_eq!(labels, vec![("A".into(), "y".into()), ("A".into(), "z".into()), ("B".into(), "x".into())]);
}

#[test]
fn footer_counts_pages() {
    let mut footer = QcPdfFooter::new();
    assert_eq!(footer.pages(), 0);
    assert_eq!(footer.decorate_page(), 1);
    assert_eq!(footer.decorate_page(), 2);
    assert_eq!(footer.generate_footer(), "Page 2");
    assert_eq!(QcPdfSubtitle::text("0.1.0"), "lib-gnss-qc v0.1.0");
    assert_eq!(decimal_text(0), "0");
    assert_eq!(decimal_text(1207), "1207");
}

#[test]
fn rtk_summary_layout() {
    let mut rtk = QcRTKSummary::new();
    let blocks = rtk.render_pdf();
    match &blocks[1] {
        PdfBlock::Table(rows) => {
            assert_eq!(rows[0].value, "None");
            assert_eq!(rows[1].value, "0");
            assert_eq!(rows[2].value, "");
        }
        other => panic!("{:?}", other),
    }
    let none: AssocMap<String, FloatBits> = AssocMap::new();
    rtk.latch_base_header(&station("BASE1", true), &none, &km(&[("BASE1", 0.0)]));
    rtk.latch_base_header(&station("BASE2", true), &none, &km(&[("BASE1", 4.5), ("BASE2", 0.0)]));
    rtk.latch_rover_header(&station("ROV1", true), &km(&[("BASE1", 1.25), ("BASE2", 2.5)]));
    rtk.latch_rover_header(&station("ROV2", false), &none);
    assert_eq!(rtk.rovers.len(), 2);
    let pair = |a: &str, b: &str| (a.to_string(), b.to_string());
    assert_eq!(rtk.baseline_distances_km.get(&pair("BASE1", "ROV1")), Some(&bits(1.25)));
    assert_eq!(rtk.baseline_distances_km.get(&pair("BASE2", "ROV1")), Some(&bits(2.5)));
    assert!(!rtk.baseline_distances_km.contains_key(&pair("BASE1", "ROV2")));
    assert_eq!(rtk.base_network_distances_km.get(&pair("BASE1", "BASE1")), Some(&bits(0.0)));
    assert_eq!(rtk.base_network_distances_km.get(&pair("BASE2", "BASE1")), Some(&bits(4.5)));
    let mut later = QcRTKSummary::new();
    later.latch_rover_header(&station("ROV9", true), &none);
    later.latch_base_header(&station("BASE9", true), &km(&[("ROV9", 7.0)]), &km(&[("BASE9", 0.0)]));
    assert_eq!(later.baseline_distances_km.get(&pair("BASE9", "ROV9")), Some(&bits(7.0)));
    let blocks = rtk.render_pdf();
    match &blocks[0] {
        PdfBlock::Title(t) => assert_eq!(t, "RTK Summary"),
        other => panic!("{:?}", other),
    }
    match &blocks[1] {
        PdfBlock::Table(rows) => {
            assert_eq!(rows[0].value, "ROV1, ROV2");
            assert_eq!(rows[1].value, "2");
            assert_eq!(rows[2].value, "BASE1, BASE2");
            assert_eq!(rows[3].label, "Total");
            assert_eq!(rows[3].value, "2");
        }
        other => panic!("{:?}", other),
    }
    let html = rtk.render();
    assert_eq!(html, vec!["BASE1/BASE1", "BASE2/BASE1", "BASE2/BASE2"]);
}

#[test]
fn ephemeris_selection_picks_latest_valid() {
    let gps1 = SV { prn: 1, constellation: Constellation::GPS };
    let gps2 = SV { prn: 2, constellation: Constellation::GPS };
    let t = epoch(10_000);
    let frames = vec![
        EphemerisCandidate { sv: gps1, toc: epoch(0), toe: Some(epoch(7_000)), valid: true },
        EphemerisCandidate { sv: gps2, toc: epoch(0), toe: Some(epoch(9_999)), valid: true },
        EphemerisCandidate { sv: gps1, toc: epoch(1), toe: Some(epoch(9_000)), valid: true },
        EphemerisCandidate { sv: gps1, toc: epoch(2), toe: Some(epoch(9_500)), valid: false },
        EphemerisCandidate { sv: gps1, toc: epoch(3), toe: Some(epoch(9_000)), valid: true },
        EphemerisCandidate { sv: gps1, toc: epoch(4), toe: None, valid: true },
    ];
    assert_eq!(select_ephemeris(t, gps1, &frames), Some(2));
    assert_eq!(select_ephemeris(t, SV { prn: 3, constellation: Constellation::GPS }, &frames), None);
    let irnss = SV { prn: 1, constellation: Constellation::IRNSS };
    let frames = vec![EphemerisCandidate { sv: irnss, toc: epoch(0), toe: Some(epoch(1)), valid: true }];
    assert_eq!(select_ephemeris(t, irnss, &frames), None);
    assert_eq!(constellation_timescale(Constellation::Glonass), Some(TimeScale::UTC));
    assert_eq!(constellation_timescale(Constellation::EGNOS), Some(TimeScale::GPST));
    assert_eq!(constellation_timescale(Constellation::Mixed), None);
}

#[test]
fn orbital_residuals_per_satellite() {
    let mut proj = OrbitalProjections::new();
    assert!(!proj.has_content());
    let g1 = SV { prn: 1, constellation: Constellation::GPS };
    let e5 = SV { prn: 5, constellation: Constellation::Galileo };
    proj.latch_residual(g1, epoch(1), (bits(1.0), bits(2.0), bits(3.0)));
    proj.latch_residual(e5, epoch(1), (bits(0.5), bits(0.5), bits(0.5)));
    proj.latch_residual(g1, epoch(2), (bits(4.0), bits(5.0), bits(6.0)));
    assert!(proj.has_content());
    assert_eq!(proj.constellations_sel.tabs(), vec![(Constellation::GPS, true), (Constellation::Galileo, false)]);
    let r = proj.residuals.get(&g1).unwrap();
    assert_eq!(r.epochs().iter().map(|e| e.tai_ns).collect::<Vec<_>>(), vec![1, 2]);
    assert_eq!(r.z_err_m()[1].bits, 6.0f64.to_bits());
    assert_eq!(r.x_err_m().len(), 2);
    let mut res = Projection::new();
    assert!(!res.has_content());
    res.latch_residual(e5, epoch(3), (bits(1.0), bits(1.0), bits(1.0)));
    assert!(res.has_content());
    assert_eq!(res.constellation_sel.len(), 1);
    assert!(!OrbitResidualProjects::new().not_empty);
}

#[test]
fn observations_time_frame_and_pages() {
    let mut report = QcObservationsReport::new("Pseudo Range");
    let g1 = SV { prn: 1, constellation: Constellation::GPS };
    let e1 = SV { prn: 1, constellation: Constellation::Galileo };
    report.latch_data_point(&QcIndexing::GnssReceiver("B".into()), g1, Carrier::L1, epoch(50), bits(1.0));
    report.latch_data_point(&QcIndexing::GnssReceiver("A".into()), e1, Carrier::E1, epoch(-20), bits(2.0));
    report.latch_data_point(&QcIndexing::GnssReceiver("A".into()), g1, Carrier::L1, epoch(30), bits(3.0));
    report.latch_data_point(&QcIndexing::GnssReceiver("A".into()), g1, Carrier::L1, epoch(40), bits(4.0));
    assert_eq!(report.time_of_first_obs.tai_ns, -20);
    assert_eq!(report.time_of_last_obs.tai_ns, 50);
    let pages = report.render_pdf();
    let keys: Vec<(String, Constellation)> = pages.iter().map(|(i, c)| (i.label(), *c)).collect();
    assert_eq!(keys, vec![("A".into(), Constellation::GPS), ("A".into(), Constellation::Galileo), ("B".into(), Constellation::GPS)]);
    assert_eq!(
        QcObservationsReport::page_title(&QcIndexing::GnssReceiver("A".into()), Constellation::Galileo),
        "A Galileo (EU) Pseudo Range Observations"
    );
    let sources = report.render();
    assert_eq!(sources.len(), 2);
    assert_eq!(sources[0].0.label(), "A");
    assert_eq!(sources[0].1, vec![Constellation::GPS, Constellation::Galileo]);
    assert_eq!(sources[1].1, vec![Constellation::GPS]);
    let storage = report.data.get(&(QcIndexing::GnssReceiver("A".into()), Constellation::GPS)).unwrap();
    let series = storage.storage.get(&(g1, Carrier::L1)).unwrap();
    assert_eq!(series.len(), 2);
    assert_eq!(series.first_epoch().tai_ns, 30);
    assert_eq!(series.last_epoch().tai_ns, 40);
    assert_eq!(series.ymin().bits, 3.0f64.to_bits());
    assert_eq!(series.ymax().bits, 4.0f64.to_bits());
}

#[test]
fn temporal_data_push() {
    let mut t = TemporalData::new(epoch(1), bits(1.5));
    t.push(epoch(2), bits(2.5));
    assert_eq!(t.len(), 2);
    assert_eq!(t.epochs().len(), 2);
    assert_eq!(t.data()[1].bits, 2.5f64.to_bits());
    t.push(epoch(7), bits(0.5));
    assert_eq!(t.epochs().iter().map(|e| e.tai_ns).collect::<Vec<_>>(), vec![1, 2, 7]);
    assert_eq!(t.first_epoch().tai_ns, 1);
    assert_eq!(t.last_epoch().tai_ns, 7);
    assert_eq!(t.ymax().bits, 0.5f64.to_bits());
}

#[test]
fn histogram_counts_each_gap() {
    let mut h = QcSamplingHistogramAnalysis::new();
    for ns in [30, 30, 10, 60, 30] {
        h.latch(Duration { total_ns: ns });
    }
    assert_eq!(h.gaps.get(&Duration { total_ns: 30 }), Some(&3));
    assert_eq!(h.gaps.get(&Duration { total_ns: 10 }), Some(&1));
    assert_eq!(h.gaps.get(&Duration { total_ns: 20 }), None);
    assert_eq!(h.largest_gap.total_ns, 60);
    assert_eq!(h.shortest_gap.total_ns, 10);
    h.latch(Duration { total_ns: -5 });
    assert_eq!(h.shortest_gap.total_ns, -5);
    let mut all = QcObservationsSamplingGapHistogram::new("PR gaps");
    all.latch(&QcIndexing::NoIndexing, Constellation::GPS, Carrier::L1, Duration { total_ns: 30 });
    all.latch(&QcIndexing::NoIndexing, Constellation::GPS, Carrier::L1, Duration { total_ns: 30 });
    all.latch(&QcIndexing::NoIndexing, Constellation::GPS, Carrier::L2, Duration { total_ns: 30 });
    assert_eq!(all.results.len(), 2);
    assert_eq!(all.name, "PR gaps");
    assert_eq!(all.largest_gap.total_ns, 30);
    assert_eq!(all.shortest_gap.total_ns, 30);
    all.latch(&QcIndexing::NoIndexing, Constellation::Galileo, Carrier::E1, Duration { total_ns: 80 });
    all.latch(&QcIndexing::NoIndexing, Constellation::Galileo, Carrier::E1, Duration { total_ns: 20 });
    assert_eq!(all.largest_gap.total_ns, 80);
    assert_eq!(all.shortest_gap.total_ns, 20);
}

#[test]
fn single_gap_sets_both_extremes() {
    let mut h = QcSamplingHistogramAnalysis::new();
    h.latch(Duration { total_ns: 5 });
    assert_eq!(h.shortest_gap.total_ns, 5);
    assert_eq!(h.largest_gap.total_ns, 5);
}

#[test]
fn first_latch_sets_time_frame() {
    let mut report = QcObservationsReport::new("Doppler");
    let g1 = SV { prn: 1, constellation: Constellation::GPS };
    report.latch_data_point(&QcIndexing::NoIndexing, g1, Carrier::L1, epoch(5), bits(1.0));
    assert_eq!(report.time_of_first_obs.tai_ns, 5);
    assert_eq!(report.time_of_last_obs.tai_ns, 5);
    report.latch_data_point(&QcIndexing::NoIndexing, g1, Carrier::L1, epoch(9), bits(1.0));
    assert_eq!(report.time_of_first_obs.tai_ns, 5);
    assert_eq!(report.time_of_last_obs.tai_ns, 9);
}

#[test]
fn clock_residuals_page() {
    let mut report = QcRunReport::new(epoch(0));
    report.clock_residuals = Some(QcClockResiduals {});
    report.sp3_orbit_proj = Some(QcOrbitProjections::from_precise_state(&QcSerializedPreciseState {
        indexing: QcIndexing::Agency("IGS".into()),
        data: QcPreciseState { sv: SV { prn: 1, constellation: Constellation::GPS }, epoch: epoch(0), position_km: (bits(0.0), bits(0.0), bits(0.0)) },
    }));
    assert_eq!(
        report.render_pdf(),
        vec![
            QcPdfPart::Break, QcPdfPart::Subtitle, QcPdfPart::TableOfContent,
            QcPdfPart::PageBreak, QcPdfPart::OrbitProjections,
            QcPdfPart::PageBreak, QcPdfPart::ClockResiduals,
            QcPdfPart::PageBreak, QcPdfPart::Documentation, QcPdfPart::PageBreak, QcPdfPart::Credits,
        ]
    );
}

#[test]
fn rover_timescale_cell() {
    assert_eq!(RoverReport::new(Some(TimeScale::GST)).render(), "GST");
    assert_eq!(RoverReport::new(None).render(), "Undefined");
}

#[test]
fn rovers_report() {
    let sources = vec![
        (QcIndexing::GnssReceiver("R1".into()), Some(TimeScale::GPST)),
        (QcIndexing::GnssReceiver("R2".into()), None),
        (QcIndexing::GnssReceiver("R1".into()), Some(TimeScale::GST)),
    ];
    let report = RoversReport::new(&sources);
    assert!(report.has_content());
    assert_eq!(report.selector.len(), 2);
    assert_eq!(report.rovers.get(&QcIndexing::GnssReceiver("R1".into())).unwrap().timescale, Some(TimeScale::GST));
    assert!(!RoversReport::new(&vec![]).has_content());
    assert_eq!(SourceReport::new().timescale, TimeScale::GPST);
}

#[test]
fn color_map_names() {
    assert_eq!(QcRenderingColorMap::from_str("vulcano"), Ok(QcRenderingColorMap::Vulcano));
    assert_eq!(QcRenderingColorMap::from_str("  VulCano \n"), Ok(QcRenderingColorMap::Vulcano));
    assert_eq!(QcRenderingColorMap::from_str("viridis"), Err(QcError::InvalidColorMap));
    assert_eq!(QcRenderingColorMap::from_str(""), Err(QcError::InvalidColorMap));
    assert_eq!(QcRenderingColorMap::named("Vulcano"), Err(QcError::InvalidColorMap));
    let o = QcRenderingOptions::default();
    assert_eq!(o.color_map, QcRenderingColorMap::Vulcano);
    assert_eq!(o.plots_per_page, QcPlotsPerPage::One);
    assert!(!o.merge_constellations && !o.merge_data_sources && !o.merge_data_publishers);
}

#[test]
fn nav_report_keeps_nothing_yet() {
    let mut nav = QcNavReport::new();
    let sv = SV { prn: 3, constellation: Constellation::BeiDou };
    nav.add_signal_contribution(&QcSerializedSignal { indexing: QcIndexing::NoIndexing, sv, carrier: Carrier::B1, epoch: epoch(0), value: bits(1.0) });
    nav.add_ephemeris_message(&QcSerializedEphemeris { sv, epoch: epoch(0) });
    assert!(nav.navi_graph.constellations.is_empty());
}

#[test]
fn orbit_projection_html_and_pdf() {
    let state = |agency: &str, c: Constellation, t: i128| QcSerializedPreciseState {
        indexing: QcIndexing::Agency(agency.into()),
        data: QcPreciseState { sv: SV { prn: 1, constellation: c }, epoch: epoch(t), position_km: (bits(1.0), bits(2.0), bits(3.0)) },
    };
    let mut proj = QcOrbitProjections::from_precise_state(&state("IGS", Constellation::Galileo, 0));
    proj.latch_precise_state(&state("COD", Constellation::GPS, 0));
    proj.latch_precise_state(&state("IGS", Constellation::GPS, 0));
    proj.latch_precise_state(&state("IGS", Constellation::GPS, 0));
    let html = proj.render();
    assert_eq!(html.agencies.iter().map(|i| i.label()).collect::<Vec<_>>(), vec!["COD", "IGS"]);
    assert_eq!(html.constellations, vec![Constellation::GPS, Constellation::Galileo]);
    assert_eq!(html.agency_form.len(), 3);
    assert!(html.agency_form[0].checked && !html.agency_form[1].checked && !html.agency_form[2].checked);
    assert!(matches!(html.agency_form[2].label, RadioLabel::All));
    assert_eq!(html.constellation_form.len(), 3);
    assert!(matches!(html.constellation_form[0].label, RadioLabel::Item(Constellation::GPS)));
    let shown: Vec<(String, bool)> = html.layout.iter().map(|s| (s.id.clone(), s.shown)).collect();
    assert_eq!(
        shown,
        vec![("COD-GPS (US)".to_string(), true), ("IGS-GPS (US)".to_string(), false), ("IGS-Galileo (EU)".to_string(), false)]
    );
    let ids: Vec<String> = html.sections.iter().map(|k| k.html_id()).collect();
    assert_eq!(ids, vec!["COD-GPS (US)", "IGS-GPS (US)", "IGS-Galileo (EU)"]);
    assert_eq!(html.sections[0].plot_id(), "COD-GPS (US)-orbit-proj");
    assert_eq!(proj.render_pdf().len(), 3);
    assert!(QcOrbitProjections::javascript().contains("orbit-proj-agencies"));
}

#[test]
fn orbit_projection_latch_then_lookup() {
    let sv = SV { prn: 9, constellation: Constellation::GPS };
    let first = QcSerializedPreciseState {
        indexing: QcIndexing::Agency("IGS".into()),
        data: QcPreciseState { sv, epoch: epoch(100), position_km: (bits(1.0), bits(2.0), bits(3.0)) },
    };
    let mut proj = QcOrbitProjections::from_precise_state(&first);
    let moved = QcSerializedPreciseState {
        indexing: QcIndexing::Agency("IGS".into()),
        data: QcPreciseState { sv, epoch: epoch(100), position_km: (bits(4.0), bits(5.0), bits(6.0)) },
    };
    proj.latch_precise_state(&moved);
    proj.latch_precise_state(&moved);
    assert_eq!(proj.projections.len(), 1);
    let key = gnss_qc::orbit_proj::QcOrbitProjectionsKey { indexing: QcIndexing::Agency("IGS".into()), constellation: Constellation::GPS };
    let inner = proj.projections.get(&key).unwrap();
    assert_eq!(inner.projection_km.len(), 1);
    let at = gnss_qc::orbit_proj::QcOrbitProjectionKey { sv, epoch: epoch(100) };
    assert_eq!(inner.projection_km.get(&at).unwrap().0.bits, 4.0f64.to_bits());
    let html = proj.to_html();
    assert_eq!(html.plots.len(), 1);
    assert_eq!(html.plots[0].1, "IGS-GPS (US)-orbit-proj");
}

#[test]
fn defaults_are_empty() {
    let rovers = RoversReport::default();
    assert!(!rovers.has_content());
    assert_eq!(rovers.selector.html_id(), "rovers");
    assert_eq!(rovers.rovers.len(), 0);
    let orbital = OrbitalProjections::default();
    assert!(!orbital.has_content());
    assert_eq!(orbital.constellations_sel.html_id(), "orbit-proj");
    let residuals = Projection::default();
    assert!(!residuals.has_content());
    assert_eq!(residuals.constellation_sel.html_id(), "orbit-residuals");
    let report = QcRunReport::default();
    assert_eq!(report.run_summary.datetime.tai_ns, 0);
    assert!(report.summary.is_none() && report.clock_residuals.is_none());
}
