use langateway::config::{default_language, default_preferred_gateway_ip, Config, ConfigSource};
use langateway::model::{ForwardRule, Language};
use std::path::PathBuf;

#[test]
fn empty_config() {
    let config = Config::default();
    assert!(config.rules.is_empty());
    assert!(!config.mdns_enabled);
    assert!(config.mdns_hostname.is_empty());
    assert_eq!(config.language, Language::ZhCn);
    assert_eq!(config.preferred_gateway_ip, "auto");
}

#[test]
fn config_dir_is_programdata() {
    let dir = PathBuf::from(Config::config_dir());
    assert_eq!(dir, PathBuf::from("C:\\ProgramData\\LanGateway"));
}

#[test]
fn config_file_is_config_toml() {
    assert_eq!(Config::config_file_name(), "config.toml");
}

#[test]
fn defaults_of_missing_fields() {
    assert_eq!(default_language(), Language::ZhCn);
    assert_eq!(default_preferred_gateway_ip(), "auto");
}

#[test]
fn config_source_prefers_current_file() {
    assert_eq!(Config::config_source(true, true), ConfigSource::Current);
    assert_eq!(Config::config_source(true, false), ConfigSource::Current);
    assert_eq!(Config::config_source(false, true), ConfigSource::Legacy);
    assert_eq!(Config::config_source(false, false), ConfigSource::Fresh);
}

#[test]
fn duplicate_keeps_everything() {
    let config = Config {
        rules: vec![ForwardRule {
            name: "Web Server".into(),
            notes: "Main web".into(),
            listen_address: "0.0.0.0".into(),
            listen_port: 8080,
            connect_address: "192.168.1.100".into(),
            connect_port: 80,
            managed: true,
        }],
        mdns_enabled: true,
        mdns_hostname: "gateway".into(),
        language: Language::EnUs,
        preferred_gateway_ip: "10.0.0.5".into(),
    };
    let copy = config.duplicate();
    assert_eq!(copy.rules.len(), 1);
    assert_eq!(copy.rules[0].name, "Web Server");
    assert_eq!(copy.rules[0].listen_port, 8080);
    assert_eq!(copy.rules[0].connect_address, "192.168.1.100");
    assert!(copy.mdns_enabled);
    assert_eq!(copy.mdns_hostname, "gateway");
    assert_eq!(copy.language, Language::EnUs);
    assert_eq!(copy.preferred_gateway_ip, "10.0.0.5");
}
