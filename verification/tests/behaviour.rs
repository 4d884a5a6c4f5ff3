use ternary_lighthouse::foghorn::{sound_active, Foghorn};
use ternary_lighthouse::guidance::{active_positions, beacon_message, focused_positions, in_focus};
use ternary_lighthouse::pattern::LightPattern;
use ternary_lighthouse::shiplog::ShipLog;
use ternary_lighthouse::signal::{Severity, Ternary};
use ternary_lighthouse::watch::WatchKeeper;

#[test]
fn ternary_from_i8_accepts_only_unit_values() {
    assert_eq!(Ternary::from_i8(-1), Some(Ternary::Neg));
    assert_eq!(Ternary::from_i8(0), Some(Ternary::Zero));
    assert_eq!(Ternary::from_i8(1), Some(Ternary::Pos));
    assert_eq!(Ternary::from_i8(2), None);
    assert_eq!(Ternary::from_i8(-2), None);
    assert_eq!(Ternary::from_i8(i8::MIN), None);
}

#[test]
fn ternary_roundtrip_through_i8() {
    for t in [Ternary::Neg, Ternary::Zero, Ternary::Pos] {
        assert_eq!(Ternary::from_i8(t.to_i8()), Some(t));
    }
}

#[test]
fn ternary_and_severity_names() {
    assert_eq!(Ternary::Neg.name(), "Neg");
    assert_eq!(Ternary::Zero.name(), "Zero");
    assert_eq!(Ternary::Pos.name(), "Pos");
    assert_eq!(Severity::Low.name(), "Low");
    assert_eq!(Severity::Critical.name(), format!("{:?}", Severity::Critical));
}

#[test]
fn severity_is_ordered() {
    assert!(Severity::Low.rank() < Severity::Medium.rank());
    assert!(Severity::Medium.rank() < Severity::High.rank());
    assert!(Severity::High.rank() < Severity::Critical.rank());
    assert!(Severity::High.at_least(Severity::Medium));
    assert!(Severity::High.at_least(Severity::High));
    assert!(!Severity::Low.at_least(Severity::Medium));
    assert_eq!(Severity::Low.max(Severity::High), Severity::High);
    assert_eq!(Severity::Critical.max(Severity::Medium), Severity::Critical);
    assert!(Severity::Low < Severity::Critical);
}

#[test]
fn foghorn_warning_is_negative_and_follows_severity() {
    let mut f = Foghorn::new("main", Severity::Low, "Fog");
    f.set_severity(Severity::Critical);
    let w = f.sound();
    assert_eq!(w.source, "main");
    assert_eq!(w.severity, Severity::Critical);
    assert_eq!(w.message, "Fog");
    assert_eq!(w.ternary_signal, Ternary::Neg);
}

#[test]
fn sound_active_skips_silenced_foghorns() {
    let a = Foghorn::new("a", Severity::Low, "one");
    let mut b = Foghorn::new("b", Severity::High, "two");
    b.active = false;
    let c = Foghorn::new("c", Severity::Medium, "three");
    let warnings = sound_active(&[a, b, c]);
    assert_eq!(warnings.len(), 2);
    assert_eq!(warnings[0].source, "a");
    assert_eq!(warnings[1].source, "c");
    assert!(warnings.iter().all(|w| w.ternary_signal == Ternary::Neg));
    assert!(sound_active(&[]).is_empty());
}

#[test]
fn from_i8s_keeps_values_and_name() {
    let lp = LightPattern::from_i8s("id1", &[1, 0, -1, 1]).unwrap();
    assert_eq!(lp.name, "id1");
    assert_eq!(lp.code, vec![Ternary::Pos, Ternary::Zero, Ternary::Neg, Ternary::Pos]);
    assert!(LightPattern::from_i8s("bad", &[0, -3]).is_none());
    assert_eq!(LightPattern::from_i8s("empty", &[]).unwrap().code.len(), 0);
}

#[test]
fn pattern_matches_needs_same_length() {
    let lp = LightPattern::new("id", vec![Ternary::Pos, Ternary::Zero]);
    assert!(!lp.matches(&[Ternary::Pos]));
    assert!(!lp.matches(&[Ternary::Pos, Ternary::Zero, Ternary::Zero]));
    assert!(LightPattern::new("e", vec![]).matches(&[]));
}

#[test]
fn similarity_counts_exact() {
    let lp = LightPattern::new("id", vec![Ternary::Pos, Ternary::Zero, Ternary::Neg]);
    assert_eq!(lp.similarity_counts(&[Ternary::Pos, Ternary::Pos, Ternary::Neg]), Some((2, 3)));
    assert_eq!(lp.similarity_counts(&[Ternary::Pos]), Some((1, 3)));
    assert_eq!(lp.similarity_counts(&[Ternary::Pos, Ternary::Zero, Ternary::Neg, Ternary::Pos]), Some((3, 4)));
    assert_eq!(lp.similarity_counts(&[]), None);
    assert_eq!(LightPattern::new("e", vec![]).similarity_counts(&[Ternary::Pos]), None);
}

#[test]
fn checksum_is_sum_mod_three() {
    assert_eq!(LightPattern::new("a", vec![Ternary::Pos, Ternary::Pos]).checksum(), 2);
    assert_eq!(LightPattern::new("b", vec![Ternary::Neg]).checksum(), 2);
    assert_eq!(LightPattern::new("c", vec![Ternary::Neg, Ternary::Neg, Ternary::Neg, Ternary::Neg]).checksum(), 2);
    assert_eq!(LightPattern::new("d", vec![]).checksum(), 0);
    assert_eq!(LightPattern::new("e", vec![Ternary::Pos; 4]).checksum(), 1);
}

#[test]
fn checksum_of_long_codes() {
    assert_eq!(LightPattern::new("a", vec![Ternary::Pos; 128]).checksum(), 2);
    assert_eq!(LightPattern::new("b", vec![Ternary::Neg; 200]).checksum(), 1);
    assert_eq!(LightPattern::new("c", vec![Ternary::Pos; 1000]).checksum(), 1);
}

#[test]
fn similarity_counts_symmetric() {
    let a = vec![Ternary::Pos, Ternary::Zero, Ternary::Neg, Ternary::Zero];
    let b = vec![Ternary::Pos, Ternary::Neg, Ternary::Neg];
    let ab = LightPattern::new("a", a.clone()).similarity_counts(&b);
    let ba = LightPattern::new("b", b.clone()).similarity_counts(&a);
    assert_eq!(ab, Some((2, 4)));
    assert_eq!(ab, ba);
}

#[test]
fn foghorn_accessors() {
    let mut f = Foghorn::new("horn", Severity::Low, "m");
    assert_eq!(f.name(), "horn");
    assert!(f.is_active());
    f.set_active(false);
    assert!(!f.is_active());
    assert!(sound_active(&[f]).is_empty());
}

#[test]
fn watchkeeper_accessors_and_monotone_alerts() {
    let mut wk = WatchKeeper::new("sentinel", Severity::High);
    assert_eq!(wk.name(), "sentinel");
    assert_eq!(wk.alert_threshold(), Severity::High);
    wk.register_danger("storm", Severity::Medium);
    wk.register_danger("reef", Severity::Low);
    let weaker = vec![("storm".to_string(), Severity::High), ("reef".to_string(), Severity::Low)];
    let stronger = vec![
        ("reef".to_string(), Severity::Critical),
        ("storm".to_string(), Severity::Critical),
        ("fog".to_string(), Severity::Low),
    ];
    let a = wk.check(&weaker);
    let b = wk.check(&stronger);
    assert_eq!(a.len(), 1);
    assert_eq!(b.len(), 2);
    assert_eq!(a[0].message, "Danger 'storm' detected at High severity");
    assert_eq!(b[1].message, "Danger 'storm' detected at Critical severity");
    let repeated = vec![("storm".to_string(), Severity::High), ("storm".to_string(), Severity::High)];
    assert_eq!(wk.check(&repeated).len(), 2);
}

#[test]
fn focused_positions_keeps_order() {
    let texts = vec![("north_beacon", "Go north"), ("south_beacon", "Go south"), ("x", "north!")];
    assert_eq!(focused_positions("north", &texts), vec![0, 2]);
    assert_eq!(focused_positions("", &texts), vec![0, 1, 2]);
    assert!(focused_positions("east", &texts).is_empty());
}

#[test]
fn watchkeeper_register_and_remove() {
    let mut wk = WatchKeeper::new("sentinel", Severity::Low);
    assert_eq!(wk.danger_count(), 0);
    wk.register_danger("storm", Severity::High);
    wk.register_danger("reef", Severity::Medium);
    assert_eq!(wk.danger_count(), 2);
    wk.register_danger("storm", Severity::Critical);
    assert_eq!(wk.danger_count(), 2);
    assert_eq!(wk.remove_danger("storm"), Some(Severity::Critical));
    assert_eq!(wk.remove_danger("storm"), None);
    assert_eq!(wk.danger_count(), 1);
    assert_eq!(wk.remove_danger("fog"), None);
    assert_eq!(wk.remove_danger("reef"), Some(Severity::Medium));
    assert_eq!(wk.danger_count(), 0);
}

#[test]
fn watchkeeper_alert_uses_more_severe_level() {
    let mut wk = WatchKeeper::new("sentinel", Severity::High);
    wk.register_danger("storm", Severity::High);
    wk.register_danger("reef", Severity::Low);
    let conditions = vec![
        ("storm".to_string(), Severity::Low),
        ("fog".to_string(), Severity::Critical),
        ("reef".to_string(), Severity::Medium),
        ("reef".to_string(), Severity::Critical),
    ];
    let alerts = wk.check(&conditions);
    assert_eq!(alerts.len(), 2);
    assert_eq!(alerts[0].source, "sentinel");
    assert_eq!(alerts[0].severity, Severity::High);
    assert_eq!(alerts[0].message, "Danger 'storm' detected at High severity");
    assert_eq!(alerts[0].ternary_signal, Ternary::Neg);
    assert_eq!(alerts[1].severity, Severity::Critical);
    assert_eq!(alerts[1].message, "Danger 'reef' detected at Critical severity");
}

#[test]
fn shiplog_timestamps_are_positions() {
    let mut log = ShipLog::default();
    assert!(log.is_empty());
    let first = log.record("radar", "one", Severity::Low);
    let second = log.record("sonar", "two", Severity::High);
    assert_eq!(first.timestamp, 0);
    assert_eq!(second.timestamp, 1);
    assert_eq!(second.source, "sonar");
    assert!(!log.is_empty());
    for (i, e) in log.entries().iter().enumerate() {
        assert_eq!(e.timestamp, i as u64);
    }
    let copy = log.clone();
    assert_eq!(copy.entries(), log.entries());
}

#[test]
fn shiplog_recent_and_filter_edges() {
    let mut log = ShipLog::new();
    assert!(log.recent(5).is_empty());
    log.record("a", "low", Severity::Low);
    log.record("b", "medium", Severity::Medium);
    assert_eq!(log.recent(5).len(), 2);
    assert_eq!(log.recent(0).len(), 0);
    assert_eq!(log.recent(1)[0].message, "medium");
    assert_eq!(log.filter_severity(Severity::Low).len(), 2);
    assert_eq!(log.filter_severity(Severity::Critical).len(), 0);
    assert_eq!(log.filter_severity(Severity::Medium)[0].source, "b");
}

#[test]
fn focus_and_beacon_messages() {
    assert!(in_focus("north", "north_beacon", "Go north"));
    assert!(in_focus("north", "x", "Go north"));
    assert!(!in_focus("north", "south_beacon", "Go south"));
    assert!(in_focus("", "a", "b"));
    assert_eq!(beacon_message("north", Ternary::Pos), "Beacon north pointing Pos");
    assert_eq!(beacon_message("n", Ternary::Neg), format!("Beacon {} pointing {:?}", "n", Ternary::Neg));
}

#[test]
fn active_positions_keeps_order() {
    assert_eq!(active_positions(&[true, false, true, true]), vec![0, 2, 3]);
    assert!(active_positions(&[false, false]).is_empty());
    assert!(active_positions(&[]).is_empty());
}
