use ternary_lighthouse::foghorn::Foghorn;
use ternary_lighthouse::pattern::LightPattern;
use ternary_lighthouse::shiplog::ShipLog;
use ternary_lighthouse::signal::{Severity, Ternary};
use ternary_lighthouse::watch::WatchKeeper;

#[test]
fn test_ternary_values() {
    assert_eq!(Ternary::Neg.to_i8(), -1);
    assert_eq!(Ternary::Zero.to_i8(), 0);
    assert_eq!(Ternary::Pos.to_i8(), 1);
}

#[test]
fn test_foghorn_sound() {
    let f = Foghorn::new("main", Severity::High, "Rocks ahead");
    let w = f.sound();
    assert_eq!(w.severity, Severity::High);
    assert_eq!(w.message, "Rocks ahead");
}

#[test]
fn test_light_pattern_from_i8s() {
    let lp = LightPattern::from_i8s("id1", &[1, 0, -1, 1]).unwrap();
    assert_eq!(lp.code.len(), 4);
}

#[test]
fn test_light_pattern_rejects_invalid() {
    assert!(LightPattern::from_i8s("bad", &[1, 2]).is_none());
}

#[test]
fn test_light_pattern_matches() {
    let lp = LightPattern::new("id", vec![Ternary::Pos, Ternary::Zero, Ternary::Neg]);
    assert!(lp.matches(&[Ternary::Pos, Ternary::Zero, Ternary::Neg]));
    assert!(!lp.matches(&[Ternary::Pos, Ternary::Pos, Ternary::Neg]));
}

#[test]
fn test_light_pattern_checksum() {
    let lp = LightPattern::new("id", vec![Ternary::Pos, Ternary::Neg, Ternary::Zero]);
    assert_eq!(lp.checksum(), 0);
}

#[test]
fn test_watchkeeper_check() {
    let mut wk = WatchKeeper::new("sentinel", Severity::Medium);
    wk.register_danger("storm", Severity::High);
    let mut conditions = Vec::new();
    conditions.push(("storm".to_string(), Severity::High));
    let alerts = wk.check(&conditions);
    assert_eq!(alerts.len(), 1);
}

#[test]
fn test_watchkeeper_no_alert_below_threshold() {
    let mut wk = WatchKeeper::new("sentinel", Severity::Critical);
    wk.register_danger("breeze", Severity::Low);
    let mut conditions = Vec::new();
    conditions.push(("breeze".to_string(), Severity::Low));
    assert!(wk.check(&conditions).is_empty());
}

#[test]
fn test_shiplog_record_and_read() {
    let mut log = ShipLog::new();
    log.record("radar", "Contact detected", Severity::Medium);
    log.record("sonar", "Submerged contact", Severity::High);
    assert_eq!(log.len(), 2);
    assert_eq!(log.entries()[0].source, "radar");
}

#[test]
fn test_shiplog_filter_severity() {
    let mut log = ShipLog::new();
    log.record("a", "low", Severity::Low);
    log.record("b", "high", Severity::High);
    log.record("c", "critical", Severity::Critical);
    let high = log.filter_severity(Severity::High);
    assert_eq!(high.len(), 2);
}

#[test]
fn test_shiplog_recent() {
    let mut log = ShipLog::new();
    for i in 0..10 {
        log.record("src", &format!("entry_{}", i), Severity::Low);
    }
    let recent = log.recent(3);
    assert_eq!(recent.len(), 3);
    assert_eq!(recent[2].message, "entry_9");
}
