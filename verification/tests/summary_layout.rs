use gnss_qc::header::{
    Antenna, GeodeticMarker, NavigationHeader, ObservationHeader, OrbitType, Receiver, RinexHeader,
    RinexType, RinexVersion, Sp3Header, Sp3Version,
};
use gnss_qc::html::HtmlCell;
use gnss_qc::model::{Epoch, FloatBits, QcIndexing, QcProductType, QcSourceDescriptor, TimeScale};
use gnss_qc::pdf::{PdfBlock, PdfRow};
use gnss_qc::summaries::{QcContextSummary, QcFileSummary, QcRINEXFileSummary, QcSP3FileSummary};

use gnss_qc::model::Frame;

const ITRF93: Frame = Frame {
    ephemeris_id: 399,
    orientation_id: 3000,
    force_inertial: false,
    mu_km3_s2: None,
    shape: None,
    frozen_epoch: None,
};

fn descriptor(product_type: QcProductType, indexing: QcIndexing, filename: &str) -> QcSourceDescriptor {
    QcSourceDescriptor { product_type, indexing, filename: filename.to_string() }
}

fn obs_header() -> RinexHeader {
    RinexHeader {
        version: RinexVersion { major: 3, minor: 4 },
        rinex_type: RinexType::ObservationData,
        rx_position: Some((
            FloatBits { bits: 4_000_000.0f64.to_bits() },
            FloatBits { bits: 300_000.0f64.to_bits() },
            FloatBits { bits: 4_900_000.0f64.to_bits() },
        )),
        rcvr: Some(Receiver { model: "SEPT".to_string(), sn: "123".to_string() }),
        rcvr_antenna: Some(Antenna { model: "ANT".to_string(), sn: "9".to_string() }),
        geodetic_marker: Some(GeodeticMarker { name: "ESBC".to_string(), number: Some("10118M001".to_string()) }),
        obs: Some(ObservationHeader {
            timeof_first_obs: Some(Epoch { tai_ns: 1_000, time_scale: TimeScale::GPST }),
            timeof_last_obs: None,
        }),
        nav: None,
    }
}

fn nav_header() -> RinexHeader {
    RinexHeader {
        version: RinexVersion { major: 4, minor: 0 },
        rinex_type: RinexType::NavigationData,
        rx_position: None,
        rcvr: None,
        rcvr_antenna: None,
        geodetic_marker: None,
        obs: None,
        nav: Some(NavigationHeader {
            time_offsets: vec![
                (TimeScale::GST, TimeScale::GPST),
                (TimeScale::BDT, TimeScale::GPST),
                (TimeScale::GPST, TimeScale::UTC),
            ],
        }),
    }
}

fn sp3_header() -> Sp3Header {
    Sp3Header {
        version: Sp3Version::C,
        coord_system: "IGS20".to_string(),
        orbit_type: OrbitType::FIT,
        agency: "GRG".to_string(),
        timescale: TimeScale::GPST,
    }
}

fn row(r: &PdfRow) -> (String, String, bool, bool) {
    (r.label.clone(), r.value.clone(), r.label_bold, r.value_bold)
}

fn table(b: &PdfBlock) -> Vec<(String, String, bool, bool)> {
    match b {
        PdfBlock::Table(rows) => rows.iter().map(row).collect(),
        other => panic!("not a table: {:?}", other),
    }
}

#[test]
fn rinex_summary_from_observation_header() {
    let s = QcRINEXFileSummary::from_header(&obs_header(), ITRF93);
    assert_eq!(s.version, RinexVersion { major: 3, minor: 4 });
    assert_eq!(s.timescale, Some(TimeScale::GPST));
    let p = s.reference_position.expect("position");
    assert_eq!(p.x_ecef_m.bits, 4_000_000.0f64.to_bits());
    assert_eq!(p.epoch.map(|e| e.tai_ns), Some(1_000));
    assert_eq!(p.frame.map(|f| (f.ephemeris_id, f.orientation_id)), Some((399, 3000)));
    assert!(s.v3_time_corrections.is_empty());
}

#[test]
fn rinex_summary_timescale_rules() {
    let mut meteo = nav_header();
    meteo.rinex_type = RinexType::MeteoData;
    assert_eq!(QcRINEXFileSummary::from_header(&meteo, ITRF93).timescale, Some(TimeScale::UTC));
    assert!(QcRINEXFileSummary::from_header(&meteo, ITRF93).v3_time_corrections.is_empty());
    let nav = QcRINEXFileSummary::from_header(&nav_header(), ITRF93);
    assert_eq!(nav.timescale, None);
    assert_eq!(nav.v3_time_corrections.len(), 3);
    let mut last_only = obs_header();
    last_only.obs = Some(ObservationHeader {
        timeof_first_obs: None,
        timeof_last_obs: Some(Epoch { tai_ns: 5, time_scale: TimeScale::GST }),
    });
    let s = QcRINEXFileSummary::from_header(&last_only, ITRF93);
    assert_eq!(s.timescale, Some(TimeScale::GST));
    assert!(s.reference_position.is_none());
}

#[test]
fn sp3_summary_from_header() {
    let s = QcSP3FileSummary::from_header(&sp3_header());
    assert_eq!(s.orbit_type, "FIT");
    assert_eq!(s.agency, "GRG");
    assert!(!s.has_sv_velocities && !s.has_sv_clock_event);
}

fn context() -> QcContextSummary {
    let mut ctx = QcContextSummary::new(ITRF93);
    ctx.latch_sp3(descriptor(QcProductType::PreciseOrbit, QcIndexing::Agency("GRG".into()), "GRG.SP3"), &sp3_header());
    ctx.latch_rinex(descriptor(QcProductType::BroadcastNavigation, QcIndexing::NoIndexing, "BRDC.rnx"), &nav_header());
    ctx.latch_rinex(descriptor(QcProductType::Observation, QcIndexing::GnssReceiver("b".into()), "B.obs"), &obs_header());
    ctx.latch_rinex(descriptor(QcProductType::Observation, QcIndexing::GnssReceiver("a".into()), "Z.obs"), &obs_header());
    ctx
}

#[test]
fn pdf_summary_layout() {
    let ctx = context();
    let blocks = ctx.render_pdf();
    // first RINEX file: observation indexed by receiver "a"
    let first = table(&blocks[0]);
    assert_eq!(first[0], ("Filename".into(), "Z.obs".into(), true, true));
    assert_eq!(first[1], ("Format".into(), "Observation".into(), true, true));
    assert_eq!(first[2], ("Version".into(), "3.4".into(), true, false));
    assert_eq!(first[3], ("Indexing".into(), "GNSS Receiver".into(), true, false));
    assert_eq!(first[4], ("Index".into(), "a".into(), true, false));
    assert_eq!(first[5], ("Timescale".into(), "GPST".into(), true, false));
    assert_eq!(first[6], ("GNSS-Receiver".into(), "SEPT123".into(), true, false));
    assert_eq!(first[7], ("GNSS-Antenna".into(), "ANT9".into(), true, false));
    assert_eq!(first[8], ("Marker".into(), "ESBC-10118M001".into(), true, false));
    assert_eq!(first.len(), 9);
    // second RINEX file starts a page
    assert!(matches!(blocks[1], PdfBlock::PageBreak));
    assert_eq!(table(&blocks[2])[0].1, "B.obs");
    // navigation file: corrections sorted
    assert!(matches!(blocks[3], PdfBlock::PageBreak));
    let nav = table(&blocks[4]);
    assert_eq!(nav[0].1, "BRDC.rnx");
    assert_eq!(nav[3], ("Indexing".into(), "None".into(), true, false));
    assert_eq!(nav[4], ("Index".into(), "None".into(), true, false));
    assert_eq!(nav[5], ("Timescale".into(), "N.a".into(), true, false));
    assert!(matches!(blocks[5], PdfBlock::Break));
    match &blocks[6] {
        PdfBlock::Heading(h) => assert_eq!(h, "Time Corrections"),
        other => panic!("{:?}", other),
    }
    let corrections = table(&blocks[7]);
    assert_eq!(corrections[0], ("Target".into(), "Reference".into(), true, true));
    assert_eq!(corrections[1], ("GPST".into(), "UTC".into(), false, false));
    assert_eq!(corrections[2], ("GST".into(), "GPST".into(), false, false));
    assert_eq!(corrections[3], ("BDT".into(), "GPST".into(), false, false));
    // then the SP3 file on a page of its own
    assert!(matches!(blocks[8], PdfBlock::PageBreak));
    let sp3 = table(&blocks[9]);
    assert_eq!(sp3[0], ("Filename".into(), "GRG.SP3".into(), true, true));
    assert_eq!(sp3[1], ("Indexed by".into(), "Agency".into(), true, false));
    assert_eq!(sp3[2], ("Version".into(), "c".into(), true, false));
    assert_eq!(sp3[7], ("Velocities".into(), "False".into(), true, false));
    assert_eq!(sp3[10], ("Clock Events (bumps)".into(), "None".into(), true, false));
    assert_eq!(sp3.len(), 12);
    assert_eq!(blocks.len(), 10);
}

#[test]
fn pdf_summary_empty() {
    let ctx = QcContextSummary::new(ITRF93);
    assert!(ctx.render_pdf().is_empty());
}

#[test]
fn html_summary_order_and_rows() {
    let ctx = context();
    let files = ctx.render();
    let names: Vec<&str> = files.iter().map(|e| e.file.filename.as_str()).collect();
    assert_eq!(names, vec!["Z.obs", "B.obs", "BRDC.rnx", "GRG.SP3"]);
    assert_eq!(files[0].cells[2], "Z.obs");
    assert_eq!(files[3].cells[0], "Precise Orbit");
    assert_eq!(files[1].onclick, "selectFileSummary('B.obs')");
    assert_eq!(files[1].section_id, "B.obs-sum");
    let shown: Vec<bool> = files.iter().map(|e| e.shown).collect();
    assert_eq!(shown, vec![true, false, false, false]);
    let nav = QcRINEXFileSummary::from_header(&nav_header(), ITRF93);
    let rows = nav.render();
    assert_eq!(rows[0].header, "Revision");
    assert!(matches!(&rows[0].cell, HtmlCell::Text(t) if t == "v4.0"));
    assert!(matches!(&rows[1].cell, HtmlCell::Text(t) if t == "Undefined"));
    assert_eq!(rows[2].header, "V3 System Time Corrections");
    assert!(matches!(&rows[2].cell, HtmlCell::Text(t) if t == "GPST/UTC, GST/GPST, BDT/GPST, "));
    let obs = QcRINEXFileSummary::from_header(&obs_header(), ITRF93).render();
    let headers: Vec<&str> = obs.iter().map(|r| r.header.as_str()).collect();
    assert_eq!(headers, vec!["Revision", "Timescale", "Reference position", "Receiver", "Antenna", "Geodetic Marker"]);
    assert!(matches!(&obs[3].cell, HtmlCell::Nested(h, t) if h == "  Model" && t == "SEPT"));
    let sp3 = QcSP3FileSummary::from_header(&sp3_header()).render();
    assert_eq!(sp3.len(), 10);
    assert!(matches!(&sp3[1].cell, HtmlCell::Text(t) if t == "c"));
    assert!(matches!(&sp3[5].cell, HtmlCell::Text(t) if t == "false"));
}

#[test]
fn file_summary_accessors() {
    let r = QcFileSummary::RINEX(QcRINEXFileSummary::from_header(&obs_header(), ITRF93));
    assert!(r.as_rinex().is_some() && r.as_sp3().is_none());
    let s = QcFileSummary::SP3(QcSP3FileSummary::from_header(&sp3_header()));
    assert!(s.as_sp3().is_some() && s.as_rinex().is_none());
}
