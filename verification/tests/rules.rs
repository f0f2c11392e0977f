use langateway::config::Config;
use langateway::model::{ForwardRule, HealthStatus, Language, PortproxyEntry};
use langateway::rules::{
    health_results, orphans_of, RuleAction, RuleCommand, RuleError, RuleFailure, RulesPanel,
};

fn make_entry(
    listen_addr: &str,
    listen_port: u16,
    connect_addr: &str,
    connect_port: u16,
) -> PortproxyEntry {
    PortproxyEntry {
        listen_address: listen_addr.into(),
        listen_port,
        connect_address: connect_addr.into(),
        connect_port,
    }
}

fn make_panel() -> RulesPanel {
    let config = Config {
        rules: vec![],
        mdns_enabled: false,
        mdns_hostname: String::new(),
        language: Language::EnUs,
        preferred_gateway_ip: "auto".into(),
    };
    let mut panel = RulesPanel::new(config, "langateway_test_config.toml".to_string(), false);
    panel.apply_proxy_entries(vec![]);
    panel
}

#[test]
fn orphan_detection_includes_listen_address() {
    let mut panel = make_panel();
    // Two rules with same listen_port but different listen_address
    panel.apply_proxy_entries(vec![
        make_entry("0.0.0.0", 8080, "10.0.0.1", 80),
        make_entry("192.168.1.1", 8080, "10.0.0.1", 80),
    ]);

    // All are orphans (no managed rules)
    assert_eq!(panel.orphan_entries().len(), 2);
}

#[test]
fn orphan_matching_distinguishes_by_listen_address() {
    let mut panel = make_panel();
    panel.proxy_entries = vec![
        make_entry("0.0.0.0", 8080, "10.0.0.1", 80),
        make_entry("192.168.1.1", 8080, "10.0.0.1", 80),
    ];
    panel.config.rules = vec![ForwardRule {
        name: "Test".into(),
        notes: "".into(),
        listen_address: "0.0.0.0".into(),
        listen_port: 8080,
        connect_address: "10.0.0.1".into(),
        connect_port: 80,
        managed: true,
    }];

    // Only 192.168.1.1:8080 should be orphan (different listen_address)
    let orphans = panel.orphan_entries();
    assert_eq!(orphans.len(), 1);
    assert_eq!(orphans[0].listen_address, "192.168.1.1");
}

fn done(n: usize, refresh: bool) -> RuleAction {
    RuleAction::Finish { result: Ok(n), refresh }
}

fn refused(e: RuleError) -> RuleAction {
    RuleAction::Finish { result: Err(RuleFailure::Refused(e)), refresh: false }
}

fn failed(m: &str, refresh: bool) -> RuleAction {
    RuleAction::Finish { result: Err(RuleFailure::Failed(m.to_string())), refresh }
}

fn rule(name: &str, listen_addr: &str, listen_port: u16, connect_addr: &str, connect_port: u16) -> ForwardRule {
    ForwardRule {
        name: name.into(),
        notes: String::new(),
        listen_address: listen_addr.into(),
        listen_port,
        connect_address: connect_addr.into(),
        connect_port,
        managed: true,
    }
}

fn admin_panel() -> RulesPanel {
    let mut panel = make_panel();
    panel.is_admin = true;
    panel
}

#[test]
fn adopt_orphan_adds_rule_to_config() {
    let mut panel = make_panel();
    panel.apply_proxy_entries(vec![make_entry("0.0.0.0", 5000, "10.108.18.67", 80)]);

    assert_eq!(panel.config.rules.len(), 0);
    assert_eq!(panel.orphan_entries().len(), 1);

    // adopt the orphan: no command runs, the configuration is saved
    assert_eq!(panel.adopt_orphan(0), RuleAction::Save);
    assert_eq!(panel.save_done(Ok(())), done(0, false));

    assert_eq!(panel.config.rules.len(), 1);
    assert_eq!(panel.config.rules[0].listen_port, 5000);
    assert_eq!(panel.config.rules[0].connect_address, "10.108.18.67");
    assert_eq!(panel.config.rules[0].name, "Adopted-5000");
    assert!(panel.config.rules[0].notes.contains("Imported from"));
    // After adoption, no orphans remain
    assert_eq!(panel.orphan_entries().len(), 0);
}

#[test]
fn adopt_all_orphans_adds_all() {
    let mut panel = make_panel();
    panel.apply_proxy_entries(vec![
        make_entry("0.0.0.0", 5000, "10.0.0.1", 80),
        make_entry("0.0.0.0", 5001, "10.0.0.2", 443),
    ]);

    assert_eq!(panel.config.rules.len(), 0);
    assert_eq!(panel.adopt_all_orphans(), RuleAction::Save);
    assert_eq!(panel.save_done(Ok(())), done(2, false));
    assert_eq!(panel.config.rules.len(), 2);
    assert_eq!(panel.config.rules[0].name, "Adopted-5000");
    assert_eq!(panel.config.rules[1].name, "Adopted-5001");
    assert_eq!(panel.orphan_entries().len(), 0);
    assert_eq!(panel.health_map.len(), 2);
    assert_eq!(panel.health_map[&0], HealthStatus::NotChecked);
    assert_eq!(panel.health_map[&1], HealthStatus::NotChecked);
    assert!(panel.orphan_health.is_empty());
}

#[test]
fn adopt_all_does_not_duplicate() {
    let mut panel = make_panel();
    panel.apply_proxy_entries(vec![make_entry("0.0.0.0", 5000, "10.0.0.1", 80)]);

    // First adoption
    assert_eq!(panel.adopt_all_orphans(), RuleAction::Save);
    assert_eq!(panel.save_done(Ok(())), done(1, false));

    // Second adoption should find no orphans
    assert_eq!(panel.adopt_all_orphans(), done(0, false));
    assert_eq!(panel.config.rules.len(), 1);
}

#[test]
fn adopt_all_empty_returns_zero() {
    let mut panel = make_panel();
    panel.apply_proxy_entries(vec![]);
    assert_eq!(panel.adopt_all_orphans(), done(0, false));
}

#[test]
fn adopt_orphan_out_of_range() {
    let mut panel = admin_panel();
    panel.apply_proxy_entries(vec![make_entry("0.0.0.0", 5000, "10.0.0.1", 80)]);
    assert_eq!(panel.adopt_orphan(1), refused(RuleError::InvalidOrphanIndex));
    assert_eq!(panel.config.rules.len(), 0);
    assert!(panel.pending.is_none());
    assert_eq!(panel.delete_orphan(3), refused(RuleError::InvalidOrphanIndex));
    assert_eq!(
        panel.delete_orphan(0),
        RuleAction::Run(RuleCommand::Delete { listen_port: 5000, listen_address: "0.0.0.0".into() })
    );
    assert_eq!(panel.netsh_done(Ok(())), done(0, true));
}

#[test]
fn failed_save_of_an_adoption_keeps_health_states() {
    let mut panel = make_panel();
    panel.apply_proxy_entries(vec![make_entry("0.0.0.0", 5000, "10.0.0.1", 80)]);
    panel.health_map.insert(9, HealthStatus::Healthy);
    assert_eq!(panel.adopt_all_orphans(), RuleAction::Save);
    assert_eq!(panel.save_done(Err("disk full".into())), failed("disk full", false));
    // the rule stays recorded, the health map is not reset
    assert_eq!(panel.config.rules.len(), 1);
    assert_eq!(panel.health_map.len(), 1);
    assert_eq!(panel.health_map[&9], HealthStatus::Healthy);
    assert!(panel.pending.is_none());
}

#[test]
fn adopt_marks_new_rule_not_checked() {
    let mut panel = make_panel();
    panel.apply_proxy_entries(vec![make_entry("0.0.0.0", 5000, "10.0.0.1", 80)]);
    panel.adopt_orphan(0);
    panel.save_done(Ok(()));
    assert_eq!(panel.health_map[&0], HealthStatus::NotChecked);
    assert_eq!(panel.rule_status(0), HealthStatus::NotChecked);
    assert_eq!(panel.rule_status(7), HealthStatus::NotChecked);
}

#[test]
fn form_validation_errors() {
    let mut panel = make_panel();
    panel.add_listen_port = "70000".into();
    panel.add_connect_port = "80".into();
    panel.add_connect_address = "10.0.0.1".into();
    assert_eq!(panel.read_rule_form().unwrap_err(), RuleError::InvalidListenPort);
    panel.add_listen_port = " 80".into();
    assert_eq!(panel.read_rule_form().unwrap_err(), RuleError::InvalidListenPort);
    panel.add_listen_port = "8080".into();
    panel.add_connect_port = "".into();
    assert_eq!(panel.read_rule_form().unwrap_err(), RuleError::InvalidConnectPort);
    panel.add_connect_port = "80".into();
    panel.add_connect_address = "   ".into();
    assert_eq!(panel.read_rule_form().unwrap_err(), RuleError::ConnectAddrRequired);
    assert_eq!(RuleError::ConnectAddrRequired.key(), "err.connect_addr_required");
    panel.add_connect_address = " 10.0.0.1 ".into();
    let req = panel.read_rule_form().unwrap();
    assert_eq!(req.listen_port, 8080);
    assert_eq!(req.connect_address, "10.0.0.1");
    assert_eq!(req.connect_port, 80);
}

#[test]
fn changes_need_administrator_rights() {
    let mut panel = make_panel();
    panel.config.rules = vec![rule("A", "0.0.0.0", 1, "10.0.0.1", 1)];
    panel.add_listen_port = "8080".into();
    panel.add_connect_port = "80".into();
    panel.add_connect_address = "10.0.0.1".into();
    assert_eq!(panel.add_rule(), refused(RuleError::AdminRequired));
    panel.begin_edit(0);
    assert_eq!(panel.update_rule(), refused(RuleError::AdminRequired));
    assert_eq!(panel.delete_rule(0), refused(RuleError::AdminRequired));
    assert_eq!(panel.config.rules.len(), 1);
    assert!(panel.pending.is_none());
    assert_eq!(RuleError::AdminRequired.key(), "msg.admin_required");
}

#[test]
fn add_rule_records_managed_rule_and_clears_form() {
    let mut panel = admin_panel();
    panel.add_listen_port = "8080".into();
    panel.add_connect_port = "80".into();
    panel.add_connect_address = " 10.0.0.1".into();
    panel.add_name = "  ".into();
    panel.add_notes = " web ".into();
    assert_eq!(
        panel.add_rule(),
        RuleAction::Run(RuleCommand::Add {
            listen_port: 8080,
            connect_address: "10.0.0.1".into(),
            connect_port: 80
        })
    );
    assert!(panel.config.rules.is_empty());
    assert_eq!(panel.netsh_done(Ok(())), RuleAction::Save);
    assert_eq!(panel.config.rules.len(), 1);
    let r = &panel.config.rules[0];
    assert_eq!(r.name, "Rule-8080");
    assert_eq!(r.notes, "web");
    assert_eq!(r.listen_address, "0.0.0.0");
    assert_eq!(r.connect_address, "10.0.0.1");
    assert!(r.managed);
    assert!(panel.add_listen_port.is_empty() && panel.add_notes.is_empty());
    assert_eq!(panel.save_done(Ok(())), done(0, true));
}

#[test]
fn add_rule_refuses_an_invalid_form() {
    let mut panel = admin_panel();
    panel.add_listen_port = "x".into();
    panel.add_connect_port = "y".into();
    assert_eq!(panel.add_rule(), refused(RuleError::InvalidListenPort));
    panel.add_listen_port = "1".into();
    assert_eq!(panel.add_rule(), refused(RuleError::InvalidConnectPort));
    panel.add_connect_port = "2".into();
    assert_eq!(panel.add_rule(), refused(RuleError::ConnectAddrRequired));
    assert_eq!(panel.add_listen_port, "1");
    assert!(panel.config.rules.is_empty());
    assert!(panel.pending.is_none());
}

#[test]
fn add_rule_failures() {
    let mut panel = admin_panel();
    panel.add_listen_port = "8080".into();
    panel.add_connect_port = "80".into();
    panel.add_connect_address = "10.0.0.1".into();
    panel.add_rule();
    // netsh fails: nothing changes, its message is the error
    assert_eq!(panel.netsh_done(Err("access denied".into())), failed("access denied", false));
    assert!(panel.config.rules.is_empty());
    assert_eq!(panel.add_listen_port, "8080");
    assert!(panel.pending.is_none());
    // netsh succeeds but the save fails: recorded, form blanked, refreshed
    panel.add_rule();
    assert_eq!(panel.netsh_done(Ok(())), RuleAction::Save);
    assert_eq!(
        panel.save_done(Err("read-only".into())),
        failed("netsh succeeded but config save failed: read-only", true)
    );
    assert_eq!(panel.config.rules.len(), 1);
    assert!(panel.add_listen_port.is_empty());
}

#[test]
fn edit_cycle() {
    let mut panel = admin_panel();
    panel.config.rules = vec![ForwardRule {
        name: "Web".into(),
        notes: "n".into(),
        listen_address: "0.0.0.0".into(),
        listen_port: 8080,
        connect_address: "10.0.0.1".into(),
        connect_port: 80,
        managed: true,
    }];
    assert_eq!(panel.update_rule(), refused(RuleError::InvalidRuleIndex));
    panel.begin_edit(0);
    assert_eq!(panel.editing_rule_index, Some(0));
    assert_eq!(panel.add_listen_port, "8080");
    assert_eq!(panel.add_connect_port, "80");
    assert_eq!(panel.add_name, "Web");
    // a new target: the old entry is deleted, the new one added
    panel.add_connect_port = "81".into();
    assert_eq!(
        panel.update_rule(),
        RuleAction::Run(RuleCommand::Delete { listen_port: 8080, listen_address: "0.0.0.0".into() })
    );
    assert_eq!(
        panel.netsh_done(Ok(())),
        RuleAction::Run(RuleCommand::Add {
            listen_port: 8080,
            connect_address: "10.0.0.1".into(),
            connect_port: 81
        })
    );
    assert_eq!(panel.netsh_done(Ok(())), RuleAction::Save);
    assert_eq!(panel.config.rules[0].connect_port, 81);
    assert_eq!(panel.config.rules[0].name, "Web");
    assert_eq!(panel.save_done(Ok(())), done(0, true));
    assert_eq!(panel.editing_rule_index, None);
    assert!(panel.add_name.is_empty());
}

#[test]
fn edit_failures() {
    let mut panel = admin_panel();
    panel.config.rules = vec![rule("Web", "0.0.0.0", 8080, "10.0.0.1", 80)];
    panel.begin_edit(0);
    panel.add_connect_port = "81".into();
    // the new entry cannot be added: nothing changes
    panel.update_rule();
    panel.netsh_done(Ok(()));
    assert_eq!(panel.netsh_done(Err("exists".into())), failed("exists", false));
    assert_eq!(panel.config.rules[0].connect_port, 80);
    assert_eq!(panel.editing_rule_index, Some(0));
    // the save fails: the rule is replaced, editing goes on, no refresh
    panel.update_rule();
    panel.netsh_done(Ok(()));
    panel.netsh_done(Ok(()));
    assert_eq!(panel.save_done(Err("locked".into())), failed("locked", false));
    assert_eq!(panel.config.rules[0].connect_port, 81);
    assert_eq!(panel.editing_rule_index, Some(0));
    assert_eq!(panel.add_connect_port, "81");
}

#[test]
fn delete_rule_stops_its_edit() {
    let mut panel = admin_panel();
    panel.config.rules = vec![
        rule("A", "0.0.0.0", 1, "10.0.0.1", 1),
        rule("B", "192.168.1.2", 2, "10.0.0.2", 2),
    ];
    assert_eq!(panel.delete_rule(2), refused(RuleError::InvalidRuleIndex));
    panel.begin_edit(1);
    assert_eq!(
        panel.delete_rule(1),
        RuleAction::Run(RuleCommand::Delete { listen_port: 2, listen_address: "192.168.1.2".into() })
    );
    assert_eq!(panel.netsh_done(Ok(())), RuleAction::Save);
    assert_eq!(panel.config.rules.len(), 1);
    assert_eq!(panel.editing_rule_index, None);
    assert!(panel.add_name.is_empty());
    assert_eq!(
        panel.save_done(Err("x".into())),
        failed("netsh succeeded but config save failed: x", true)
    );
}

#[test]
fn failed_delete_changes_nothing() {
    let mut panel = admin_panel();
    panel.config.rules = vec![rule("A", "0.0.0.0", 1, "10.0.0.1", 1)];
    panel.delete_rule(0);
    assert_eq!(panel.netsh_done(Err("not found".into())), failed("not found", false));
    assert_eq!(panel.config.rules.len(), 1);
    assert!(panel.pending.is_none());
    panel.delete_rule(0);
    panel.netsh_done(Ok(()));
    assert_eq!(panel.save_done(Ok(())), done(0, true));
    assert!(panel.config.rules.is_empty());
}

#[test]
fn health_results_and_orphan_states() {
    let rules = vec![
        ForwardRule {
            name: "A".into(),
            notes: "".into(),
            listen_address: "0.0.0.0".into(),
            listen_port: 1,
            connect_address: "10.0.0.1".into(),
            connect_port: 1,
            managed: true,
        },
        ForwardRule {
            name: "B".into(),
            notes: "".into(),
            listen_address: "0.0.0.0".into(),
            listen_port: 2,
            connect_address: "10.0.0.2".into(),
            connect_port: 2,
            managed: true,
        },
    ];
    let entries = vec![make_entry("0.0.0.0", 1, "10.0.0.1", 1), make_entry("0.0.0.0", 9, "10.0.0.9", 9)];
    let orphans = orphans_of(&rules, &entries);
    assert_eq!(orphans.len(), 1);
    let result = health_results(
        &rules,
        &entries,
        &vec![Err("timeout: t".to_string()), Ok(())],
        &vec![Ok(())],
    );
    assert_eq!(result.health_map[&0], HealthStatus::TargetUnreachable("timeout: t".into()));
    assert_eq!(result.health_map[&1], HealthStatus::MetadataOnly);
    let mut panel = make_panel();
    panel.config.rules = rules;
    panel.apply_proxy_entries(entries);
    assert!(panel.start_health_check());
    assert!(!panel.start_health_check());
    panel.apply_health_results(result);
    assert!(!panel.health_check_running);
    assert_eq!(panel.orphan_status(&orphans[0]), HealthStatus::Healthy);
    assert_eq!(panel.orphan_status(&make_entry("1.1.1.1", 1, "x", 1)), HealthStatus::NotChecked);
    assert_eq!(panel.adopt_orphan(0), RuleAction::Save);
    // the orphan's state stays until the adoption is saved
    assert_eq!(panel.orphan_status(&orphans[0]), HealthStatus::Healthy);
    assert_eq!(panel.save_done(Ok(())), done(0, false));
    assert_eq!(panel.orphan_status(&orphans[0]), HealthStatus::NotChecked);
    assert_eq!(panel.rule_status(2), HealthStatus::NotChecked);
    assert_eq!(panel.rule_status(0), HealthStatus::TargetUnreachable("timeout: t".into()));
}

#[test]
fn refresh_failure_keeps_entries() {
    let mut panel = make_panel();
    panel.apply_proxy_entries(vec![make_entry("0.0.0.0", 5000, "10.0.0.1", 80)]);
    panel.refresh_proxy(Err("access denied".into()));
    assert_eq!(panel.status_message, "Failed to read rules: access denied");
    assert_eq!(panel.proxy_entries.len(), 1);
    panel.refresh_proxy(Ok(vec![]));
    assert_eq!(panel.proxy_entries.len(), 0);
}

#[test]
fn editing_without_changes_keeps_the_rule() {
    let mut panel = admin_panel();
    let rule = ForwardRule {
        name: "Web Server".into(),
        notes: "Main web".into(),
        listen_address: "0.0.0.0".into(),
        listen_port: 65535,
        connect_address: "192.168.1.100".into(),
        connect_port: 0,
        managed: true,
    };
    panel.config.rules = vec![rule.clone()];
    panel.begin_edit(0);
    // no command runs: the rule is put back and saved
    assert_eq!(panel.update_rule(), RuleAction::Save);
    assert_eq!(panel.save_done(Ok(())), done(0, true));
    let r = &panel.config.rules[0];
    assert_eq!(r.name, rule.name);
    assert_eq!(r.notes, rule.notes);
    assert_eq!(r.listen_address, rule.listen_address);
    assert_eq!(r.listen_port, rule.listen_port);
    assert_eq!(r.connect_address, rule.connect_address);
    assert_eq!(r.connect_port, rule.connect_port);
    assert!(r.managed);
    assert!(panel.editing_rule_index.is_none());
    assert!(panel.add_listen_port.is_empty() && panel.add_name.is_empty());
}
