use umbra_relay::config::{bind_is_loopback, Config, IpAddress};

fn cfg_with_allowlist(ips: &[&str]) -> Config {
    let mut cfg = Config::default();
    cfg.allow_ips = ips.iter().map(|s| s.to_string()).collect();
    cfg
}

#[test]
fn default_config_values() {
    let cfg = Config::default();
    assert_eq!(cfg.group_bind, "0.0.0.0:9910");
    assert_eq!(cfg.mailbox_bind, "0.0.0.0:9900");
    assert_eq!(cfg.call_bind, "0.0.0.0:9930");
    assert!(cfg.allow_ips.is_empty());
    assert_eq!(cfg.max_connections, 512);
    assert_eq!(cfg.idle_timeout_secs, 90);
    assert_eq!(cfg.spool_path, "umbra-relay.spool");
    assert_eq!(cfg.snapshot_interval_secs, 30);
    assert!(!cfg.private_mode);
}

#[test]
fn empty_allowlist_allows_any_source() {
    let cfg = Config::default();
    assert!(cfg.ip_allowed("203.0.113.7"));
    assert!(cfg.ip_allowed("::1"));
    assert!(cfg.ip_allowed(""));
}

#[test]
fn allowlist_admits_exact_matches_only() {
    let cfg = cfg_with_allowlist(&["10.0.0.1", "2001:db8::5"]);
    assert!(cfg.ip_allowed("10.0.0.1"));
    assert!(cfg.ip_allowed("2001:db8::5"));
    assert!(!cfg.ip_allowed("10.0.0.10"));
    assert!(!cfg.ip_allowed("10.0.0."));
    assert!(!cfg.ip_allowed(" 10.0.0.1"));
    assert!(!cfg.ip_allowed(""));
}

#[test]
fn allowlist_compares_non_ascii_exactly() {
    let cfg = cfg_with_allowlist(&["h\u{e9}te"]);
    assert!(cfg.ip_allowed("h\u{e9}te"));
    assert!(!cfg.ip_allowed("hete"));
}

#[test]
fn snapshot_period_is_at_least_five_seconds() {
    let mut cfg = Config::default();
    assert_eq!(cfg.snapshot_period_secs(), 30);
    cfg.snapshot_interval_secs = 0;
    assert_eq!(cfg.snapshot_period_secs(), 5);
    cfg.snapshot_interval_secs = 4;
    assert_eq!(cfg.snapshot_period_secs(), 5);
    cfg.snapshot_interval_secs = 5;
    assert_eq!(cfg.snapshot_period_secs(), 5);
    cfg.snapshot_interval_secs = u64::MAX;
    assert_eq!(cfg.snapshot_period_secs(), u64::MAX);
}

#[test]
fn loopback_addresses() {
    assert!(IpAddress::V4(0x7f00_0001).is_loopback());
    assert!(IpAddress::V4(0x7fff_fffe).is_loopback());
    assert!(!IpAddress::V4(0x8000_0001).is_loopback());
    assert!(!IpAddress::V4(0).is_loopback());
    assert!(IpAddress::V6(1).is_loopback());
    assert!(!IpAddress::V6(0).is_loopback());
    // ::ffff:127.0.0.1 is not the IPv6 loopback address.
    assert!(!IpAddress::V6(0xffff_7f00_0001).is_loopback());
}

#[test]
fn bind_loopback_needs_a_resolution_with_loopback_addresses_only() {
    assert!(!bind_is_loopback(&None));
    assert!(!bind_is_loopback(&Some(vec![])));
    assert!(bind_is_loopback(&Some(vec![IpAddress::V4(0x7f00_0001)])));
    assert!(bind_is_loopback(&Some(vec![IpAddress::V4(0x7f00_0001), IpAddress::V6(1)])));
    assert!(!bind_is_loopback(&Some(vec![IpAddress::V4(0x7f00_0001), IpAddress::V4(0)])));
    assert!(!bind_is_loopback(&Some(vec![IpAddress::V6(2), IpAddress::V6(1)])));
}
