use umbra_relay::admission::{Admission, ConnectionGate};
use umbra_relay::config::Config;

#[test]
fn allowlist_is_asked_before_the_cap() {
    let mut cfg = Config::default();
    cfg.allow_ips = vec!["10.0.0.1".to_string()];
    cfg.max_connections = 0;
    let mut gate = ConnectionGate::new();
    assert_eq!(gate.decide(&cfg, "10.0.0.2"), Admission::NotAllowlisted);
    assert_eq!(gate.decide(&cfg, "10.0.0.1"), Admission::AtCapacity);
    assert_eq!(gate.active(), 0);
}

#[test]
fn cap_is_never_exceeded() {
    let mut cfg = Config::default();
    cfg.max_connections = 2;
    let mut gate = ConnectionGate::new();
    assert_eq!(gate.decide(&cfg, "1.2.3.4"), Admission::Accept);
    assert_eq!(gate.decide(&cfg, "1.2.3.4"), Admission::Accept);
    assert_eq!(gate.active(), 2);
    assert_eq!(gate.decide(&cfg, "1.2.3.4"), Admission::AtCapacity);
    assert_eq!(gate.active(), 2);
    gate.release();
    assert_eq!(gate.active(), 1);
    assert_eq!(gate.decide(&cfg, "5.6.7.8"), Admission::Accept);
    assert_eq!(gate.active(), 2);
}

#[test]
fn refused_connections_leave_the_count_alone() {
    let mut cfg = Config::default();
    cfg.allow_ips = vec!["::1".to_string()];
    let mut gate = ConnectionGate::new();
    for _ in 0..10 {
        assert_eq!(gate.decide(&cfg, "192.0.2.1"), Admission::NotAllowlisted);
    }
    assert_eq!(gate.active(), 0);
    assert_eq!(gate.decide(&cfg, "::1"), Admission::Accept);
    assert_eq!(gate.active(), 1);
}
