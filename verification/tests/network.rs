use langateway::model::InterfaceInfo;
use langateway::network::{
    get_interface_for_ip, has_virtual_keyword_in, hostname_from_output, interfaces_from_powershell, ipv4_addresses_from,
    is_apipa_ipv4, is_usable_gateway_ipv4,
    is_virtual_adapter, parse_ipconfig, parse_powershell_output, select_preferred_ip,
    usable_gateway_ipv4_addresses, PsAdapter, PsIpAddr,
};

fn make_iface(name: &str, ip: &str, is_virtual: bool) -> InterfaceInfo {
    InterfaceInfo { name: name.into(), ipv4: ip.into(), mac: String::new(), is_virtual }
}

fn ip_rec(alias: &str, index: i32, ip: &str) -> PsIpAddr {
    PsIpAddr { interface_alias: alias.into(), interface_index: index, ip_address: ip.into() }
}

fn adapter(name: &str, desc: &str, index: i32, mac: &str) -> PsAdapter {
    PsAdapter {
        name: name.into(),
        interface_description: desc.into(),
        interface_index: index,
        mac_address: mac.into(),
    }
}

#[test]
fn join_by_interface_index() {
    // {"InterfaceAlias":"Wi-Fi","InterfaceIndex":5,"IPAddress":"192.168.1.1"}
    let ips = vec![ip_rec("Wi-Fi", 5, "192.168.1.1")];
    // {"Name":"Wi-Fi","InterfaceDescription":"Intel Wi-Fi","InterfaceIndex":5,"MacAddress":"AA-BB-CC-DD-EE-FF","Status":"Up"}
    let ads = vec![adapter("Wi-Fi", "Intel Wi-Fi", 5, "AA-BB-CC-DD-EE-FF")];
    let result = parse_powershell_output(&ips, &ads);
    assert_eq!(result.len(), 1);
    assert_eq!(result[0].name, "Wi-Fi");
    assert_eq!(result[0].ipv4, "192.168.1.1");
    assert_eq!(result[0].mac, "AA-BB-CC-DD-EE-FF");
}

#[test]
fn powershell_records_without_adapter_use_alias() {
    let ips = vec![
        ip_rec("vEthernet (WSL)", 7, "172.20.0.1"),
        ip_rec("", 9, "10.0.0.9"),
        ip_rec("Ethernet", 3, "0.0.0.0"),
        ip_rec("Ethernet", 3, ""),
        ip_rec("Loopback Pseudo-Interface 1", 0, "10.1.1.1"),
    ];
    let ads = vec![adapter("", "nameless", 7, "11-22"), adapter("Wi-Fi", "w", 0, "33-44")];
    let result = parse_powershell_output(&ips, &ads);
    assert_eq!(result.len(), 2);
    assert_eq!(result[0].name, "vEthernet (WSL)");
    assert_eq!(result[0].mac, "11-22");
    assert!(result[0].is_virtual);
    // index 0 is never joined, even to an adapter with index 0
    assert_eq!(result[1].name, "Loopback Pseudo-Interface 1");
    assert_eq!(result[1].mac, "");
    assert!(result[1].is_virtual);
}

#[test]
fn powershell_virtual_flag_follows_alias() {
    let ips = vec![ip_rec("Ethernet", 4, "10.0.0.2")];
    let ads = vec![adapter("Docker NAT", "d", 4, "")];
    let result = parse_powershell_output(&ips, &ads);
    assert_eq!(result[0].name, "Docker NAT");
    assert!(!result[0].is_virtual);
}

#[test]
fn select_preferred_ip_prioritizes_lan() {
    let ips = vec!["198.18.0.1".to_string(), "192.168.100.6".to_string(), "10.108.18.68".to_string()];
    let ifaces = vec![
        make_iface("TUN", "198.18.0.1", true),
        make_iface("Wi-Fi", "192.168.100.6", false),
        make_iface("Ethernet", "10.108.18.68", false),
    ];
    assert_eq!(select_preferred_ip(&ips, "auto", &ifaces), "10.108.18.68");
}

#[test]
fn select_preferred_ip_excludes_apipa() {
    assert_eq!(select_preferred_ip(&["169.254.1.1".into(), "10.0.0.1".into()], "auto", &[make_iface("Ethernet", "10.0.0.1", false)]), "10.0.0.1");
}

#[test]
fn select_preferred_ip_manual_override() {
    assert_eq!(select_preferred_ip(&["10.0.0.1".into(), "192.168.1.1".into()], "192.168.1.1", &[]), "192.168.1.1");
}

#[test]
fn select_preferred_ip_manual_missing_falls_back() {
    assert_eq!(select_preferred_ip(&["10.0.0.1".into()], "10.99.99.99", &[make_iface("Ethernet", "10.0.0.1", false)]), "10.0.0.1");
}

#[test]
fn select_preferred_ip_no_usable_returns_empty() {
    assert_eq!(select_preferred_ip(&[], "auto", &[]), "");
}

#[test]
fn select_preferred_ip_excludes_zeros() {
    assert_eq!(select_preferred_ip(&["0.0.0.0".into(), "127.0.0.1".into(), "10.0.0.1".into()], "auto", &[make_iface("Ethernet", "10.0.0.1", false)]), "10.0.0.1");
}

#[test]
fn select_preferred_ip_tiers() {
    let ips: Vec<String> = vec![
        "192.168.1.5".into(),
        "172.16.3.3".into(),
        "172.32.0.1".into(),
        "8.8.8.8".into(),
    ];
    // 172.16/12 ranks before 192.168/16; 172.32 is not private
    assert_eq!(select_preferred_ip(&ips, "auto", &[]), "172.16.3.3");
    // a LAN address on a virtual adapter loses to one on a physical adapter
    let ifaces = vec![make_iface("vpn", "172.16.3.3", true)];
    assert_eq!(select_preferred_ip(&ips, "auto", &ifaces), "192.168.1.5");
    // only virtual LAN addresses: the first LAN address
    let ifaces = vec![make_iface("a", "172.16.3.3", true), make_iface("b", "192.168.1.5", true)];
    assert_eq!(select_preferred_ip(&ips, "", &ifaces), "192.168.1.5");
    // no LAN address: one on a known physical adapter, else the first usable
    let ips2: Vec<String> = vec!["8.8.8.8".into(), "9.9.9.9".into()];
    assert_eq!(select_preferred_ip(&ips2, "auto", &[make_iface("x", "9.9.9.9", false)]), "9.9.9.9");
    assert_eq!(select_preferred_ip(&ips2, "auto", &[]), "8.8.8.8");
    // "auto" is never a manual choice
    let ips3: Vec<String> = vec!["auto".into(), "10.0.0.3".into()];
    assert_eq!(select_preferred_ip(&ips3, "auto", &[]), "10.0.0.3");
}

#[test]
fn detected_ips_include_all_non_loopback() {
    let ifaces = vec![
        make_iface("TUN", "198.18.0.1", true),
        make_iface("Wi-Fi", "192.168.100.6", false),
        make_iface("Ethernet", "10.108.18.68", false),
    ];
    let ips = ipv4_addresses_from(&ifaces);
    assert_eq!(ips.len(), 3);
    assert!(ips.contains(&"198.18.0.1".to_string()));
    assert!(ips.contains(&"192.168.100.6".to_string()));
    assert!(ips.contains(&"10.108.18.68".to_string()));
}

#[test]
fn ipv4_addresses_are_distinct_and_ordered() {
    let ifaces = vec![
        make_iface("a", "10.0.0.1", false),
        make_iface("b", "0.0.0.0", false),
        make_iface("c", "10.0.0.2", false),
        make_iface("d", "10.0.0.1", true),
    ];
    assert_eq!(ipv4_addresses_from(&ifaces), vec!["10.0.0.1".to_string(), "10.0.0.2".to_string()]);
}

#[test]
fn usable_addresses_leave_out_special_ranges() {
    let ifaces = vec![
        make_iface("TUN", "198.18.0.1", true),
        make_iface("lo", "127.0.0.1", false),
        make_iface("apipa", "169.254.3.4", false),
        make_iface("Wi-Fi", "192.168.100.6", false),
        make_iface("Wi-Fi", "192.168.100.6", false),
    ];
    assert_eq!(usable_gateway_ipv4_addresses(&ifaces), vec!["192.168.100.6".to_string()]);
    assert!(is_usable_gateway_ipv4("10.0.0.1"));
    assert!(!is_usable_gateway_ipv4("0.0.0.0"));
    assert!(is_apipa_ipv4("169.254.0.1"));
    assert!(!is_apipa_ipv4("10.169.254.1"));
}

#[test]
fn get_interface_for_ip_returns_name() {
    let ifaces = vec![
        make_iface("Ethernet", "10.0.0.1", false),
        make_iface("Wi-Fi", "192.168.1.1", false),
    ];
    assert_eq!(get_interface_for_ip("10.0.0.1", &ifaces), "Ethernet");
    assert_eq!(get_interface_for_ip("10.99.99.99", &ifaces), "Unknown");
}

#[test]
fn get_interface_for_empty_ip_is_unknown() {
    let ifaces = vec![make_iface("Odd", "", false)];
    assert_eq!(get_interface_for_ip("", &ifaces), "Unknown");
}

#[test]
fn virtual_adapter_keywords() {
    assert!(is_virtual_adapter("vEthernet (WSL)"));
    assert!(is_virtual_adapter("Hyper-V Virtual Ethernet Adapter"));
    assert!(is_virtual_adapter("TAP-Windows Adapter V9"));
    assert!(is_virtual_adapter("WAN Miniport (IP)"));
    assert!(is_virtual_adapter("Tailscale"));
    assert!(!is_virtual_adapter("Ethernet"));
    assert!(!is_virtual_adapter("Wi-Fi"));
    assert!(!is_virtual_adapter(""));
}

#[test]
fn ipconfig_sections_become_interfaces() {
    let text = [
        "Windows IP Configuration",
        "",
        "Ethernet adapter Ethernet:",
        "   Physical Address. . . . . . . . . : AA-BB-CC-DD-EE-FF",
        "   IPv4 Address. . . . . . . . . . . : 192.168.1.10(Preferred)",
        "   Subnet Mask . . . . . . . . . . . : 255.255.255.0",
        "",
        "Ethernet adapter vEthernet (WSL):",
        "   Physical Address. . . . . . . . . : 00-15-5D-00-00-01",
        "   IPv4 Address. . . . . . . . . . . : 172.20.0.1(Preferred)",
        "Wireless LAN adapter Wi-Fi:",
        "   Media State . . . . . . . . . . . : Media disconnected",
        "",
    ]
    .join("\r\n");
    let text = text.as_str();
    let ifaces = parse_ipconfig(text);
    assert_eq!(ifaces.len(), 2);
    assert_eq!(ifaces[0].name, "Ethernet adapter Ethernet");
    assert_eq!(ifaces[0].ipv4, "192.168.1.10");
    assert_eq!(ifaces[0].mac, "AA-BB-CC-DD-EE-FF");
    assert!(!ifaces[0].is_virtual);
    assert_eq!(ifaces[1].name, "Ethernet adapter vEthernet (WSL)");
    assert_eq!(ifaces[1].ipv4, "172.20.0.1");
    assert!(ifaces[1].is_virtual);
}

#[test]
fn ipconfig_chinese_labels() {
    let text = "以太网适配器 以太网:\n   物理地址. . . . . . . . . . . . . : 11-22-33-44-55-66\n   IPv4 地址 . . . . . . . . . . . . : 10.0.0.8(首选)\n";
    let ifaces = parse_ipconfig(text);
    assert_eq!(ifaces.len(), 1);
    assert_eq!(ifaces[0].name, "以太网适配器 以太网");
    assert_eq!(ifaces[0].ipv4, "10.0.0.8");
    assert_eq!(ifaces[0].mac, "11-22-33-44-55-66");
}

#[test]
fn ipconfig_blank_lines_keep_the_section() {
    // the real layout: a blank line follows each adapter header
    let text = "Windows IP Configuration\n\nEthernet adapter Ethernet:\n\n   Physical Address. . . : AA-BB-CC-DD-EE-FF\n   IPv4 Address. . . : 192.168.1.5(Preferred)\n\n";
    let ifaces = parse_ipconfig(text);
    assert_eq!(ifaces.len(), 1);
    assert_eq!(ifaces[0].name, "Ethernet adapter Ethernet");
    assert_eq!(ifaces[0].ipv4, "192.168.1.5");
    assert_eq!(ifaces[0].mac, "AA-BB-CC-DD-EE-FF");
    assert!(!ifaces[0].is_virtual);
    assert_eq!(parse_ipconfig("").len(), 0);
}

#[test]
fn ipconfig_windows_layout_with_two_adapters() {
    let text = "\r\nWindows IP Configuration\r\n\r\n   Host Name . . . . . . . . . . . . : PC\r\n\r\nEthernet adapter Ethernet:\r\n\r\n   Physical Address. . . . . . . . . : AA-BB-CC-DD-EE-FF\r\n   IPv4 Address. . . . . . . . . . . : 192.168.1.5(Preferred)\r\n   Subnet Mask . . . . . . . . . . . : 255.255.255.0\r\n\r\nWireless LAN adapter Wi-Fi:\r\n\r\n   Media State . . . . . . . . . . . : Media disconnected\r\n   Physical Address. . . . . . . . . : 11-22-33-44-55-66\r\n\r\nEthernet adapter vEthernet (WSL):\r\n\r\n   IPv4 Address. . . . . . . . . . . : 172.20.0.1(Preferred)\r\n";
    let ifaces = parse_ipconfig(text);
    assert_eq!(ifaces.len(), 2);
    assert_eq!(ifaces[0].name, "Ethernet adapter Ethernet");
    assert_eq!(ifaces[0].ipv4, "192.168.1.5");
    assert_eq!(ifaces[0].mac, "AA-BB-CC-DD-EE-FF");
    assert_eq!(ifaces[1].name, "Ethernet adapter vEthernet (WSL)");
    assert_eq!(ifaces[1].ipv4, "172.20.0.1");
    assert_eq!(ifaces[1].mac, "");
    assert!(ifaces[1].is_virtual);
}

#[test]
fn powershell_result_or_fallback() {
    assert!(interfaces_from_powershell(None).is_none());
    assert!(interfaces_from_powershell(Some(vec![])).is_none());
    let got = interfaces_from_powershell(Some(vec![make_iface("Ethernet", "10.0.0.1", false)])).unwrap();
    assert_eq!(got.len(), 1);
    assert_eq!(got[0].name, "Ethernet");
}

#[test]
fn hostname_is_trimmed() {
    assert_eq!(hostname_from_output("DESKTOP-01\r\n"), "DESKTOP-01");
    assert_eq!(hostname_from_output("  pc  "), "pc");
}

#[test]
fn keyword_search_on_lowercased_names() {
    assert!(has_virtual_keyword_in("tun"));
    assert!(has_virtual_keyword_in("vethernet (wsl)"));
    assert!(!has_virtual_keyword_in("wi-fi"));
    assert!(!has_virtual_keyword_in("TUN"));
    assert!(is_virtual_adapter("TUN"));
    assert!(!is_virtual_adapter("Wi-Fi"));
}
