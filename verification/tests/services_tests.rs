use umbra_relay::config::{Config, IpAddress};
use umbra_relay::services::{port_of, Service};

#[test]
fn service_names() {
    assert_eq!(Service::Group.config_key(), "group_bind");
    assert_eq!(Service::Mailbox.config_key(), "mailbox_bind");
    assert_eq!(Service::Call.config_key(), "call_bind");
    assert_eq!(Service::Group.listener_name(), "group-relay");
    assert_eq!(Service::Mailbox.listener_name(), "mailbox");
    assert_eq!(Service::Call.listener_name(), "call-relay");
    assert_eq!(Service::Group.label(), "group");
    assert_eq!(Service::Mailbox.label(), "mailbox");
    assert_eq!(Service::Call.label(), "call");
}

#[test]
fn blank_binds_disable_services() {
    let mut cfg = Config::default();
    assert_eq!(cfg.enabled_services(), vec![Service::Group, Service::Mailbox, Service::Call]);
    cfg.group_bind = "  ".to_string();
    cfg.call_bind = String::new();
    assert_eq!(cfg.enabled_services(), vec![Service::Mailbox]);
    assert!(!cfg.service_enabled(Service::Group));
    assert!(cfg.service_enabled(Service::Mailbox));
    cfg.mailbox_bind = "\t".to_string();
    assert!(cfg.enabled_services().is_empty());
}

#[test]
fn binds_by_service() {
    let cfg = Config::default();
    assert_eq!(cfg.bind(Service::Group), "0.0.0.0:9910");
    assert_eq!(cfg.bind(Service::Mailbox), "0.0.0.0:9900");
    assert_eq!(cfg.bind(Service::Call), "0.0.0.0:9930");
}

#[test]
fn private_mode_refuses_the_first_non_loopback_service() {
    let lo = Some(vec![IpAddress::V4(0x7f00_0001)]);
    let any = Some(vec![IpAddress::V4(0)]);
    let mut cfg = Config::default();
    assert_eq!(cfg.private_mode_refusal(&any, &any, &any), Some(Service::Group));
    assert_eq!(cfg.private_mode_refusal(&lo, &any, &lo), Some(Service::Mailbox));
    assert_eq!(cfg.private_mode_refusal(&lo, &lo, &None), Some(Service::Call));
    assert_eq!(cfg.private_mode_refusal(&lo, &lo, &lo), None);
    // A disabled service is never refused, whatever its bind resolved to.
    cfg.group_bind = String::new();
    assert_eq!(cfg.private_mode_refusal(&None, &lo, &lo), None);
}

#[test]
fn ports_of_binds() {
    assert_eq!(port_of("127.0.0.1:9910"), "9910");
    assert_eq!(port_of("[::1]:9900"), "9900");
    assert_eq!(port_of("localhost"), "localhost");
}

#[test]
fn onion_guidance_lists_running_services() {
    let mut cfg = Config::default();
    cfg.group_bind = "127.0.0.1:9910".to_string();
    cfg.mailbox_bind = "127.0.0.1:9900".to_string();
    cfg.call_bind = " ".to_string();
    assert_eq!(
        cfg.onion_guidance(),
        vec![
            "  # torrc \u{2014} one HiddenServiceDir, one HiddenServicePort per service:".to_string(),
            "  HiddenServiceDir /var/lib/tor/umbra-relay/".to_string(),
            "  HiddenServicePort 9910 127.0.0.1:9910   # group".to_string(),
            "  HiddenServicePort 9900 127.0.0.1:9900   # mailbox".to_string(),
            "  # (optional) HiddenServiceAuthorizeClient / client-auth for access gating.".to_string(),
            "  # Give clients the generated <HiddenServiceDir>/hostname (.onion).".to_string(),
        ]
    );
}
