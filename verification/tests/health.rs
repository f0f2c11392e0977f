use langateway::health::{check_orphan, check_rule, connect_error_message, proxy_exists, ConnectFailure};
use langateway::model::{ForwardRule, HealthStatus, Language, OrphanKey, PortproxyEntry};

fn rule(listen_addr: &str, listen_port: u16, connect_addr: &str, connect_port: u16) -> ForwardRule {
    ForwardRule {
        name: "r".into(),
        notes: String::new(),
        listen_address: listen_addr.into(),
        listen_port,
        connect_address: connect_addr.into(),
        connect_port,
        managed: true,
    }
}

fn entry(listen_addr: &str, listen_port: u16, connect_addr: &str, connect_port: u16) -> PortproxyEntry {
    PortproxyEntry {
        listen_address: listen_addr.into(),
        listen_port,
        connect_address: connect_addr.into(),
        connect_port,
    }
}

#[test]
fn rule_in_table_and_target_up_is_healthy() {
    let r = rule("0.0.0.0", 8080, "10.0.0.1", 80);
    let es = vec![entry("0.0.0.0", 8080, "10.0.0.1", 80)];
    assert_eq!(check_rule(&r, &es, Ok(())), HealthStatus::Healthy);
}

#[test]
fn rule_in_table_and_target_down_is_unreachable() {
    let r = rule("0.0.0.0", 8080, "10.0.0.1", 80);
    let es = vec![entry("0.0.0.0", 8080, "10.0.0.1", 80)];
    assert_eq!(
        check_rule(&r, &es, Err("timeout: timed out".into())),
        HealthStatus::TargetUnreachable("timeout: timed out".into())
    );
}

#[test]
fn rule_missing_from_table_is_metadata_only_whatever_the_target() {
    let r = rule("0.0.0.0", 8080, "10.0.0.1", 80);
    let es = vec![entry("0.0.0.0", 8080, "10.0.0.2", 80), entry("0.0.0.0", 8081, "10.0.0.1", 80)];
    assert_eq!(check_rule(&r, &es, Ok(())), HealthStatus::MetadataOnly);
    assert_eq!(check_rule(&r, &es, Err("refused".into())), HealthStatus::MetadataOnly);
    assert_eq!(check_rule(&r, &[], Ok(())), HealthStatus::MetadataOnly);
}

#[test]
fn wildcard_listen_address_matches_either_side() {
    let specific = rule("192.168.1.5", 8080, "10.0.0.1", 80);
    assert!(proxy_exists(&specific, &[entry("0.0.0.0", 8080, "10.0.0.1", 80)]));
    let wildcard = rule("0.0.0.0", 8080, "10.0.0.1", 80);
    assert!(proxy_exists(&wildcard, &[entry("192.168.1.5", 8080, "10.0.0.1", 80)]));
    assert!(!proxy_exists(&specific, &[entry("192.168.1.6", 8080, "10.0.0.1", 80)]));
}

#[test]
fn orphan_health_follows_target() {
    assert_eq!(check_orphan(Ok(())), HealthStatus::Healthy);
    assert_eq!(
        check_orphan(Err("connection refused: x".into())),
        HealthStatus::TargetUnreachable("connection refused: x".into())
    );
}

#[test]
fn health_labels_in_both_languages() {
    assert_eq!(HealthStatus::NotChecked.label(Language::EnUs), "Not checked");
    assert_eq!(HealthStatus::NotChecked.label(Language::ZhCn), "未检查");
    assert_eq!(HealthStatus::Healthy.label(Language::EnUs), "Healthy");
    assert_eq!(HealthStatus::Healthy.label(Language::ZhCn), "正常");
    assert_eq!(HealthStatus::TargetUnreachable("x".into()).label(Language::EnUs), "Target Unreachable");
    assert_eq!(HealthStatus::TargetUnreachable("x".into()).label(Language::ZhCn), "目标不可达");
    assert_eq!(HealthStatus::MetadataOnly.label(Language::EnUs), "Metadata Only");
    assert_eq!(HealthStatus::MetadataOnly.label(Language::ZhCn), "仅有本地配置");
    assert_eq!(HealthStatus::Unknown.label(Language::EnUs), "Unknown");
    assert_eq!(HealthStatus::Unknown.label(Language::ZhCn), "未知");
}

#[test]
fn detail_only_for_unreachable() {
    assert_eq!(HealthStatus::TargetUnreachable("timeout".into()).detail(), "timeout");
    assert_eq!(HealthStatus::Healthy.detail(), "");
    assert_eq!(HealthStatus::MetadataOnly.detail(), "");
}

#[test]
fn orphan_key_copies_entry() {
    let e = entry("0.0.0.0", 5000, "10.0.0.1", 80);
    let k = OrphanKey::from_entry(&e);
    assert_eq!(k.listen_address, "0.0.0.0");
    assert_eq!(k.listen_port, 5000);
    assert_eq!(k.connect_address, "10.0.0.1");
    assert_eq!(k.connect_port, 80);
    assert_eq!(k.duplicate(), k);
}

#[test]
fn connect_error_messages_name_the_failure() {
    assert_eq!(connect_error_message(ConnectFailure::TimedOut, "os error 10060"), "timeout: os error 10060");
    assert_eq!(connect_error_message(ConnectFailure::ConnectionRefused, "x"), "connection refused: x");
    assert_eq!(connect_error_message(ConnectFailure::ConnectionReset, "x"), "connection reset: x");
    assert_eq!(connect_error_message(ConnectFailure::HostUnreachable, "x"), "host unreachable: x");
    assert_eq!(connect_error_message(ConnectFailure::NetworkUnreachable, "x"), "network unreachable: x");
    assert_eq!(connect_error_message(ConnectFailure::Other, ""), "unreachable: ");
}
