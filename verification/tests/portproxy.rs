use langateway::portproxy::{add_v4tov4_args, delete_v4tov4_args, parse_show_all};

#[test]
fn add_v4tov4_uses_equals_sign_format() {
    let args = add_v4tov4_args(5000u16, "10.0.0.1", 80u16);
    assert_eq!(args[4], "listenport=5000");
    assert_eq!(args[5], "listenaddress=0.0.0.0");
    assert_eq!(args[6], "connectport=80");
    assert_eq!(args[7], "connectaddress=10.0.0.1");
}

#[test]
fn delete_v4tov4_uses_equals_sign_format() {
    let args = delete_v4tov4_args(5000u16, "0.0.0.0");
    assert_eq!(args[4], "listenport=5000");
    assert_eq!(args[5], "listenaddress=0.0.0.0");
}

#[test]
fn netsh_argument_lists() {
    assert_eq!(
        add_v4tov4_args(65535, "gw.local", 0),
        vec![
            "interface",
            "portproxy",
            "add",
            "v4tov4",
            "listenport=65535",
            "listenaddress=0.0.0.0",
            "connectport=0",
            "connectaddress=gw.local"
        ]
    );
    assert_eq!(
        delete_v4tov4_args(8, "192.168.1.1"),
        vec!["interface", "portproxy", "delete", "v4tov4", "listenport=8", "listenaddress=192.168.1.1"]
    );
}

#[test]
fn parse_ipv4_show_all_output() {
    let sample = "\
Listen on ipv4:             Connect to ipv4:

Address         Port        Address         Port
--------------- ----------  --------------- ----------
0.0.0.0         8080        192.168.1.100   80
0.0.0.0         4433        10.0.0.50       443
127.0.0.1       3000        192.168.1.200   3000
";

    let entries = parse_show_all(sample);
    assert_eq!(entries.len(), 3);

    assert_eq!(entries[0].listen_address, "0.0.0.0");
    assert_eq!(entries[0].listen_port, 8080);
    assert_eq!(entries[0].connect_address, "192.168.1.100");
    assert_eq!(entries[0].connect_port, 80);

    assert_eq!(entries[1].listen_port, 4433);
    assert_eq!(entries[1].connect_address, "10.0.0.50");
    assert_eq!(entries[1].connect_port, 443);

    assert_eq!(entries[2].listen_address, "127.0.0.1");
    assert_eq!(entries[2].listen_port, 3000);
}

#[test]
fn parse_empty_output() {
    let sample = "\
Listen on ipv4:             Connect to ipv4:

Address         Port        Address         Port
--------------- ----------  --------------- ----------
";
    let entries = parse_show_all(sample);
    assert_eq!(entries.len(), 0);
}

#[test]
fn parse_no_header() {
    let entries = parse_show_all("");
    assert_eq!(entries.len(), 0);
}

#[test]
fn parse_skips_bad_rows_and_headings() {
    let sample = "0.0.0.0 1 2.2.2.2 2\r\n\
=============\r\n\
侦听 ipv4:                 连接到 ipv4:\r\n\
0.0.0.0         99999       10.0.0.1        80\r\n\
0.0.0.0         +81         10.0.0.1        x\r\n\
0.0.0.0         22\r\n\
\t0.0.0.0\t22\t10.0.0.2\t+22\textra\r\n";
    let entries = parse_show_all(sample);
    assert_eq!(entries.len(), 1);
    assert_eq!(entries[0].listen_port, 22);
    assert_eq!(entries[0].connect_address, "10.0.0.2");
    assert_eq!(entries[0].connect_port, 22);
}
