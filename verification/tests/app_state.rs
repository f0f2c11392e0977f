use std::time::Instant;
use langateway::config::Config;
use langateway::gateway_app::{LanGatewayApp, Tab};
use langateway::model::{
    DashboardInfo, ForwardRule, InterfaceInfo, Language, PortproxyEntry, RefreshState,
};
use langateway::panels::{DashboardPanel, SettingsPanel};

fn iface(name: &str, ip: &str, is_virtual: bool) -> InterfaceInfo {
    InterfaceInfo { name: name.into(), ipv4: ip.into(), mac: String::new(), is_virtual }
}

fn entry(listen_port: u16, connect_addr: &str, connect_port: u16) -> PortproxyEntry {
    PortproxyEntry {
        listen_address: "0.0.0.0".into(),
        listen_port,
        connect_address: connect_addr.into(),
        connect_port,
    }
}

fn config_with_one_rule() -> Config {
    let mut c = Config::default();
    c.rules.push(ForwardRule {
        name: "Web".into(),
        notes: String::new(),
        listen_address: "0.0.0.0".into(),
        listen_port: 8080,
        connect_address: "10.0.0.1".into(),
        connect_port: 80,
        managed: true,
    });
    c
}

fn app() -> LanGatewayApp {
    LanGatewayApp::new(config_with_one_rule(), "C:\\ProgramData\\LanGateway\\config.toml".into(), true)
}

#[test]
fn new_app_waits_for_first_refresh() {
    let a = app();
    assert!(a.tab == Tab::Dashboard);
    assert!(matches!(a.dashboard_info.refresh_state, RefreshState::Refreshing));
    assert!(a.dashboard_info.is_admin);
    assert!(a.rules_panel.is_admin);
    assert_eq!(a.rules_panel.config.rules.len(), 1);
    assert_eq!(a.settings_panel.preferred_gateway_ip, "auto");
    assert_eq!(a.language, Language::ZhCn);
    assert!(!a.initial_refresh_done);
    assert!(a.needs_repaint());
}

#[test]
fn build_dashboard_info_picks_gateway_and_counts_rules() {
    let cfg = Config::default();
    let ifaces = vec![
        iface("TUN", "198.18.0.1", true),
        iface("Wi-Fi", "192.168.100.6", false),
        iface("Ethernet", "10.108.18.68", false),
    ];
    let res = LanGatewayApp::build_dashboard_info(
        &cfg,
        false,
        None,
        ifaces,
        Ok(vec![entry(8080, "10.0.0.1", 80), entry(8081, "10.0.0.2", 81)]),
        Instant::now(),
    );
    assert_eq!(res.info.hostname, "unknown");
    assert_eq!(res.info.gateway_ip, "10.108.18.68");
    assert_eq!(res.info.active_interface, "Ethernet");
    assert_eq!(res.info.local_ipv4, vec!["192.168.100.6".to_string(), "10.108.18.68".to_string()]);
    assert_eq!(res.info.rule_count, 2);
    assert_eq!(res.proxy_entries.len(), 2);
    assert!(matches!(res.info.refresh_state, RefreshState::Done { error: None, .. }));
}

#[test]
fn build_dashboard_info_without_table_or_interfaces() {
    let cfg = Config::default();
    let res = LanGatewayApp::build_dashboard_info(&cfg, true, Some("HOST".into()), vec![], Err("netsh failed".into()), Instant::now());
    assert_eq!(res.info.hostname, "HOST");
    assert_eq!(res.info.gateway_ip, "");
    assert_eq!(res.info.active_interface, "Unknown");
    assert!(res.info.local_ipv4.is_empty());
    assert_eq!(res.info.rule_count, 0);
    assert!(res.proxy_entries.is_empty());
}

#[test]
fn first_refresh_is_applied_and_reported() {
    let mut a = app();
    let cfg = Config::default();
    let res = LanGatewayApp::build_dashboard_info(
        &cfg,
        false,
        Some("PC".into()),
        vec![iface("Ethernet", "10.0.0.1", false)],
        Ok(vec![entry(8080, "10.0.0.1", 80)]),
        Instant::now(),
    );
    assert!(!a.try_apply_refresh(None, Instant::now()));
    assert!(a.try_apply_refresh(Some(res), Instant::now()));
    assert!(a.initial_refresh_done);
    assert_eq!(a.dashboard_info.hostname, "PC");
    assert_eq!(a.dashboard_info.gateway_ip, "10.0.0.1");
    assert_eq!(a.dashboard_info.rule_count, 1);
    assert!(!a.rules_panel.is_admin);
    assert_eq!(a.rules_panel.proxy_entries.len(), 1);
    assert_eq!(a.settings_panel.interfaces.len(), 1);
    assert!(!a.needs_repaint());

    // a second refresh is not the initial one
    let res2 = LanGatewayApp::build_dashboard_info(&cfg, false, None, vec![iface("Ethernet", "10.0.0.1", false)], Ok(vec![]), Instant::now());
    assert!(!a.try_apply_refresh(Some(res2), Instant::now()));
}

#[test]
fn empty_refresh_keeps_known_network_data() {
    let mut a = app();
    let cfg = Config::default();
    let first = LanGatewayApp::build_dashboard_info(
        &cfg,
        true,
        Some("PC".into()),
        vec![iface("Ethernet", "10.0.0.1", false)],
        Ok(vec![]),
        Instant::now(),
    );
    a.try_apply_refresh(Some(first), Instant::now());
    let empty = LanGatewayApp::build_dashboard_info(&cfg, true, Some("PC2".into()), vec![], Ok(vec![entry(1, "10.0.0.9", 2)]), Instant::now());
    a.try_apply_refresh(Some(empty), Instant::now());
    assert_eq!(a.dashboard_info.hostname, "PC2");
    assert_eq!(a.dashboard_info.interfaces.len(), 1);
    assert_eq!(a.dashboard_info.gateway_ip, "10.0.0.1");
    assert_eq!(a.dashboard_info.active_interface, "Ethernet");
    assert_eq!(a.dashboard_info.local_ipv4, vec!["10.0.0.1".to_string()]);
    assert_eq!(a.dashboard_info.rule_count, 1);
    match &a.dashboard_info.refresh_state {
        RefreshState::Done { error: Some(m), .. } => {
            assert_eq!(m, "Network detection failed, showing cached data")
        }
        _ => panic!("expected a refresh error"),
    }
}

#[test]
fn background_refresh_starts_once() {
    let mut a = app();
    assert!(!a.start_background_refresh());
    a.dashboard_info.refresh_state = RefreshState::Done { at: Instant::now(), error: None };
    assert!(a.start_background_refresh());
    assert!(matches!(a.dashboard_info.refresh_state, RefreshState::Refreshing));
    assert!(!a.start_background_refresh());
}

#[test]
fn manual_gateway_choice_is_saved_and_applied() {
    let mut a = app();
    let cfg = Config::default();
    let res = LanGatewayApp::build_dashboard_info(
        &cfg,
        true,
        None,
        vec![iface("Ethernet", "10.0.0.1", false), iface("Wi-Fi", "192.168.1.1", false)],
        Ok(vec![]),
        Instant::now(),
    );
    a.try_apply_refresh(Some(res), Instant::now());
    assert_eq!(a.dashboard_info.gateway_ip, "10.0.0.1");
    a.settings_panel.preferred_gateway_ip = "192.168.1.1".into();
    assert!(a.save_config_deferred());
    assert_eq!(a.config.preferred_gateway_ip, "192.168.1.1");
    assert_eq!(a.rules_panel.config.preferred_gateway_ip, "192.168.1.1");
    a.recompute_gateway_ip_from_ui();
    assert_eq!(a.dashboard_info.gateway_ip, "192.168.1.1");
    assert_eq!(a.dashboard_info.active_interface, "Wi-Fi");
    assert!(!a.save_config_deferred());
}

#[test]
fn mdns_name_is_saved() {
    let mut a = app();
    a.settings_panel.mdns_hostname = "gateway".into();
    assert!(a.save_config_deferred());
    assert_eq!(a.config.mdns_hostname, "gateway");
    assert_eq!(a.rules_panel.config.mdns_hostname, "gateway");
}

#[test]
fn language_change_reaches_every_copy() {
    let mut a = app();
    a.on_language_changed(Language::EnUs);
    assert_eq!(a.language, Language::EnUs);
    assert_eq!(a.config.language, Language::EnUs);
    assert_eq!(a.rules_panel.config.language, Language::EnUs);
    assert_eq!(a.config.rules.len(), 1);
}

#[test]
fn first_health_check_starts_once_after_first_refresh() {
    let mut a = app();
    assert!(!a.poll_initial_health_check());
    let res = LanGatewayApp::build_dashboard_info(&Config::default(), true, None, vec![], Ok(vec![]), Instant::now());
    a.try_apply_refresh(Some(res), Instant::now());
    assert!(a.poll_initial_health_check());
    assert!(a.rules_panel.health_check_running);
    assert!(a.needs_repaint());
    assert!(!a.poll_initial_health_check());
}

#[test]
fn panels_start_blank() {
    assert!(DashboardPanel::new().elevation_error.is_none());
    let s = SettingsPanel::new();
    assert_eq!(s.mdns_hostname, "gateway");
    assert_eq!(s.preferred_gateway_ip, "auto");
    assert!(s.interfaces.is_empty());
    assert_eq!(s.config_path, "C:\\ProgramData\\LanGateway\\config.toml");
}

#[test]
fn gateway_choices_fall_back_to_usable_interface_addresses() {
    let mut s = SettingsPanel::new();
    s.interfaces = vec![
        iface("Ethernet", "10.0.0.1", false),
        iface("Link", "169.254.3.3", false),
        iface("TUN", "198.18.0.1", true),
        iface("Loop", "127.0.0.1", false),
        iface("Wi-Fi", "192.168.1.1", false),
    ];
    let info = DashboardInfo {
        hostname: String::new(),
        local_ipv4: vec![],
        active_interface: String::new(),
        is_admin: false,
        rule_count: 0,
        gateway_ip: String::new(),
        interfaces: vec![],
        refresh_state: RefreshState::Idle,
    };
    assert_eq!(s.gateway_choices(&info), vec!["10.0.0.1".to_string(), "192.168.1.1".to_string()]);
    let info2 = DashboardInfo { local_ipv4: vec!["172.16.0.1".into()], ..info };
    assert_eq!(s.gateway_choices(&info2), vec!["172.16.0.1".to_string()]);
}

#[test]
fn language_choice_is_taken_once() {
    let mut a = app();
    assert!(!a.apply_language_choice(Language::ZhCn));
    assert!(a.apply_language_choice(Language::EnUs));
    assert_eq!(a.config.language, Language::EnUs);
    assert_eq!(a.rules_panel.config.language, Language::EnUs);
    assert!(!a.apply_language_choice(Language::EnUs));
}

#[test]
fn settings_edit_applies_only_a_changed_gateway_choice() {
    let mut a = app();
    let res = LanGatewayApp::build_dashboard_info(
        &Config::default(),
        true,
        None,
        vec![iface("Ethernet", "10.0.0.1", false), iface("Wi-Fi", "192.168.1.1", false)],
        Ok(vec![]),
        Instant::now(),
    );
    a.try_apply_refresh(Some(res), Instant::now());
    // the mDNS name alone does not trigger a save
    a.settings_panel.mdns_hostname = "gw".into();
    assert!(!a.apply_settings_edit("auto"));
    assert_eq!(a.config.mdns_hostname, "");
    // a new gateway choice saves both and picks the address
    a.settings_panel.preferred_gateway_ip = "192.168.1.1".into();
    assert!(a.apply_settings_edit("auto"));
    assert_eq!(a.config.preferred_gateway_ip, "192.168.1.1");
    assert_eq!(a.config.mdns_hostname, "gw");
    assert_eq!(a.dashboard_info.gateway_ip, "192.168.1.1");
    assert_eq!(a.dashboard_info.active_interface, "Wi-Fi");
    // an address that is not offered falls back to the automatic choice
    a.settings_panel.preferred_gateway_ip = "10.9.9.9".into();
    assert!(a.apply_settings_edit("192.168.1.1"));
    assert_eq!(a.dashboard_info.gateway_ip, "10.0.0.1");
}
