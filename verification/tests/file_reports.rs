use gnss_qc::file_report::{join_strings, sv_label, FileReport, Sp3Content};
use gnss_qc::header::{OrbitType, Sp3Header, Sp3Version};
use gnss_qc::html::HtmlCell;
use gnss_qc::model::{Constellation, Epoch, FloatBits, QcIndexing, QcProductType, QcSourceDescriptor, TimeScale, SV};
use gnss_qc::orbital::Projection;
use gnss_qc::pdf_summary::summaries_consistent_check;
use gnss_qc::summaries::QcContextSummary;

use gnss_qc::model::Frame;

const ITRF93: Frame = Frame {
    ephemeris_id: 399,
    orientation_id: 3000,
    force_inertial: false,
    mu_km3_s2: None,
    shape: None,
    frozen_epoch: None,
};

fn header() -> Sp3Header {
    Sp3Header {
        version: Sp3Version::C,
        coord_system: "IGS20".into(),
        orbit_type: OrbitType::BHN,
        agency: "ESA".into(),
        timescale: TimeScale::GST,
    }
}

#[test]
fn file_report_rows() {
    let content = Sp3Content {
        has_clock: true,
        has_velocity: false,
        has_clock_drift: false,
        uses_prediction: true,
        has_maneuvers: false,
        has_clock_events: false,
        satellites: vec![
            SV { prn: 5, constellation: Constellation::Galileo },
            SV { prn: 1, constellation: Constellation::GPS },
            SV { prn: 1, constellation: Constellation::Glonass },
        ],
    };
    let report = FileReport::new(&header(), &content);
    assert_eq!(report.revision, "C");
    assert_eq!(report.orbit_fit, "BHN");
    assert_eq!(report.time_scale, "GST");
    assert!(report.constellations.is_empty());
    let rows = report.render();
    assert_eq!(rows.len(), 15);
    let text = |i: usize| match &rows[i].cell {
        HtmlCell::Text(t) => t.clone(),
        other => panic!("{:?}", other),
    };
    assert_eq!(rows[1].header, "Revision");
    assert_eq!(text(6), "true");
    assert_eq!(text(7), "false");
    assert_eq!(rows[9].header, "Has Precise Clock Drift");
    assert_eq!(text(12), "");
    assert_eq!(rows[13].header, "Satellites");
    assert_eq!(text(13), "G01, R01, E05");
    assert_eq!(rows[14].header, "Sampling");
    assert!(matches!(rows[14].cell, HtmlCell::Sampling(_)));
}

#[test]
fn satellite_labels() {
    assert_eq!(sv_label(SV { prn: 7, constellation: Constellation::BeiDou }), "C07");
    assert_eq!(sv_label(SV { prn: 12, constellation: Constellation::QZSS }), "J12");
    assert_eq!(sv_label(SV { prn: 123, constellation: Constellation::Mixed }), "M123");
    assert_eq!(sv_label(SV { prn: 0, constellation: Constellation::IRNSS }), "I00");
    assert_eq!(join_strings(&vec!["a".into(), "b".into()], " | "), "a | b");
    assert_eq!(join_strings(&vec![], ", "), "");
}

#[test]
fn residual_plots_per_constellation() {
    let mut proj = Projection::new();
    let bits = FloatBits { bits: 0 };
    let t = Epoch { tai_ns: 0, time_scale: TimeScale::GPST };
    proj.latch_residual(SV { prn: 3, constellation: Constellation::Galileo }, t, (bits, bits, bits));
    proj.latch_residual(SV { prn: 3, constellation: Constellation::GPS }, t, (bits, bits, bits));
    proj.latch_residual(SV { prn: 4, constellation: Constellation::Galileo }, t, (bits, bits, bits));
    assert_eq!(proj.render(), vec![Constellation::GPS, Constellation::Galileo]);
    assert_eq!(proj.residuals.len(), 3);
}

#[test]
fn summary_kinds_checked() {
    let mut ctx = QcContextSummary::new(ITRF93);
    assert!(summaries_consistent_check(&ctx));
    ctx.latch_sp3(
        QcSourceDescriptor { product_type: QcProductType::PreciseOrbit, indexing: QcIndexing::NoIndexing, filename: "a.sp3".into() },
        &header(),
    );
    assert!(summaries_consistent_check(&ctx));
    ctx.latch_sp3(
        QcSourceDescriptor { product_type: QcProductType::Observation, indexing: QcIndexing::NoIndexing, filename: "b.obs".into() },
        &header(),
    );
    assert!(!summaries_consistent_check(&ctx));
}
