use gnss_qc::constellations_sel::ConstellationsSelector;
use gnss_qc::keyed::AssocMap;
use gnss_qc::model::{Constellation, Duration, Epoch, QcIndexing, QcProductType, QcSourceDescriptor, TimeScale, SV};
use gnss_qc::order::{descriptor_lt, sort_pairs, sort_strings, string_lt};
use gnss_qc::selector::{AxisSelector, PosVelSelector, RadioLabel, Selector};
use gnss_qc::sorting::{sort_keys, sorted_distinct};

#[test]
fn assoc_map_read_after_write() {
    let mut m: AssocMap<String, u32> = AssocMap::new();
    assert!(m.is_empty());
    m.insert("a".to_string(), 1);
    m.insert("b".to_string(), 2);
    m.insert("a".to_string(), 3);
    assert_eq!(m.len(), 2);
    assert_eq!(m.get(&"a".to_string()), Some(&3));
    assert_eq!(m.get(&"c".to_string()), None);
    assert!(m.contains_key(&"b".to_string()));
    assert_eq!(m.remove(&"b".to_string()), Some(2));
    assert_eq!(m.remove(&"b".to_string()), None);
    assert_eq!(m.len(), 1);
    assert_eq!(m.entry(0).0, "a");
}

#[test]
fn string_order() {
    assert!(string_lt(&"abc".to_string(), &"abd".to_string()));
    assert!(string_lt(&"ab".to_string(), &"abc".to_string()));
    assert!(!string_lt(&"abc".to_string(), &"abc".to_string()));
    assert!(!string_lt(&"b".to_string(), &"abc".to_string()));
    assert!(string_lt(&"".to_string(), &"a".to_string()));
    assert!(string_lt(&"Z".to_string(), &"a".to_string()));
}

#[test]
fn descriptor_order() {
    let a = QcSourceDescriptor { product_type: QcProductType::Observation, indexing: QcIndexing::Agency("X".into()), filename: "z".into() };
    let b = QcSourceDescriptor { product_type: QcProductType::Observation, indexing: QcIndexing::Custom("A".into()), filename: "a".into() };
    let c = QcSourceDescriptor { product_type: QcProductType::PreciseOrbit, indexing: QcIndexing::NoIndexing, filename: "a".into() };
    let d = QcSourceDescriptor { product_type: QcProductType::Observation, indexing: QcIndexing::Agency("X".into()), filename: "y".into() };
    assert!(descriptor_lt(&a, &b));
    assert!(descriptor_lt(&b, &c));
    assert!(descriptor_lt(&d, &a));
    assert!(!descriptor_lt(&a, &a));
}

#[test]
fn pairs_and_strings_sorted() {
    let v = vec![(TimeScale::UTC, TimeScale::TAI), (TimeScale::TAI, TimeScale::UTC), (TimeScale::UTC, TimeScale::TAI), (TimeScale::TAI, TimeScale::GPST)];
    assert_eq!(sort_pairs(&v), vec![(TimeScale::TAI, TimeScale::UTC), (TimeScale::TAI, TimeScale::GPST), (TimeScale::UTC, TimeScale::TAI), (TimeScale::UTC, TimeScale::TAI)]);
    let s = vec!["pear".to_string(), "apple".to_string(), "pea".to_string(), "apple".to_string()];
    assert_eq!(sort_strings(&s), vec!["apple", "apple", "pea", "pear"]);
    assert!(sort_strings(&vec![]).is_empty());
}

#[test]
fn generic_sort_and_distinct() {
    let v = vec![Constellation::Galileo, Constellation::GPS, Constellation::Galileo, Constellation::BeiDou];
    assert_eq!(sort_keys(&v), vec![Constellation::GPS, Constellation::BeiDou, Constellation::Galileo, Constellation::Galileo]);
    assert_eq!(sorted_distinct(&v), vec![Constellation::GPS, Constellation::BeiDou, Constellation::Galileo]);
    let pairs = vec![("b".to_string(), "a".to_string()), ("a".to_string(), "z".to_string()), ("a".to_string(), "b".to_string())];
    let sorted = sort_keys(&pairs);
    assert_eq!(sorted[0], ("a".to_string(), "b".to_string()));
    assert_eq!(sorted[2], ("b".to_string(), "a".to_string()));
}

#[test]
fn selector_add_is_idempotent() {
    let mut s: Selector<QcIndexing> = Selector::new("sources", false);
    assert!(!s.has_content());
    s.add(&QcIndexing::Agency("IGS".into()));
    s.add(&QcIndexing::Agency("IGS".into()));
    s.add(&QcIndexing::NoIndexing);
    assert_eq!(s.len(), 2);
    assert!(s.contains(&QcIndexing::NoIndexing));
    assert!(!s.contains(&QcIndexing::Agency("ESA".into())));
    assert_eq!(s.html_id(), "sources");
    let options = s.radio_options();
    assert_eq!(options.len(), 2);
    assert!(options[0].checked && !options[1].checked);
}

#[test]
fn selector_radio_all_and_both() {
    let pv = PosVelSelector::new("pv");
    let options = pv.selector.radio_options();
    assert_eq!(options.len(), 3);
    assert!(matches!(options[0].label, RadioLabel::Both));
    assert!(options[0].checked && !options[1].checked && !options[2].checked);
    let axis = AxisSelector::new("axis");
    let options = axis.selector.radio_options();
    assert_eq!(options.len(), 4);
    assert!(matches!(options[0].label, RadioLabel::All));
}

#[test]
fn constellations_selector_tabs() {
    let mut s = ConstellationsSelector::new("constell");
    assert!(!s.has_content());
    s.add_sv(&SV { prn: 1, constellation: Constellation::GPS });
    s.add_sv(&SV { prn: 2, constellation: Constellation::GPS });
    s.add_constellation(&Constellation::Galileo);
    s.add_constellation(&Constellation::Galileo);
    assert_eq!(s.len(), 2);
    assert_eq!(s.tabs(), vec![(Constellation::GPS, true), (Constellation::Galileo, false)]);
    assert_eq!(s.html_id(), "constell");
}

#[test]
fn epochs_and_durations() {
    let a = Epoch { tai_ns: 10, time_scale: TimeScale::GPST };
    let b = Epoch { tai_ns: 25, time_scale: TimeScale::UTC };
    assert!(a.before(&b) && !b.before(&a));
    assert_eq!(b.since(&a), Duration { total_ns: 15 });
    assert_eq!(a.since(&b), Duration { total_ns: -15 });
    assert_eq!(Epoch::reference().tai_ns, 0);
    assert_eq!(Duration::zero().total_ns, 0);
}

#[test]
fn indexing_labels() {
    assert_eq!(QcIndexing::NoIndexing.label(), "None");
    assert_eq!(QcIndexing::GeodeticMarker("M".into()).label(), "M");
    assert_eq!(QcIndexing::GeodeticMarker("M".into()).kind_name(), "Marker");
    assert_eq!(QcIndexing::RxAntenna("A".into()).kind_name(), "GNSS Antenna");
    assert_eq!(QcIndexing::Operator("o".into()).tag(), 5);
    assert_eq!(QcProductType::BroadcastNavigation.label(), "Broadcast Navigation");
    assert!(QcProductType::IONEX.is_rinex_product());
    assert!(!QcProductType::PreciseOrbit.is_rinex_product());
}

#[test]
fn selectors_have_content_after_adds() {
    let mut s: Selector<Constellation> = Selector::new("sel", false);
    assert!(!s.has_content());
    s.add(&Constellation::GPS);
    s.add(&Constellation::GPS);
    assert!(s.has_content());
    assert_eq!(s.len(), 1);
    let mut c = ConstellationsSelector::new("tabs");
    assert!(!c.has_content());
    c.add_sv(&SV { prn: 3, constellation: Constellation::Galileo });
    c.add_constellation(&Constellation::Galileo);
    assert!(c.has_content());
    assert_eq!(c.len(), 1);
}
