use langateway::encoding::{decode, gbk_text};

#[test]
fn utf8_is_taken_as_is() {
    assert_eq!(decode(b"abc"), "abc");
    assert_eq!(decode("中文".as_bytes()), "中文");
    assert_eq!(decode(b""), "");
}

#[test]
fn gbk_is_decoded_when_not_utf8() {
    // "中文" in GBK
    assert_eq!(decode(&[0xD6, 0xD0, 0xCE, 0xC4]), "中文");
    // "IPv4 地址" as a Chinese console prints it
    let mut bytes = b"IPv4 ".to_vec();
    bytes.extend_from_slice(&[0xB5, 0xD8, 0xD6, 0xB7]);
    assert_eq!(decode(&bytes), "IPv4 地址");
}

#[test]
fn neither_utf8_nor_gbk_falls_back_to_lossy() {
    assert_eq!(decode(&[0xFF]), "\u{FFFD}");
    assert_eq!(decode(&[b'a', 0xFF]), "a\u{FFFD}");
}

#[test]
fn text_written_as_utf8_reads_back() {
    for s in ["", "Ethernet", "以太网 2", "IPv4 Address. . . : 10.0.0.1(Preferred)"] {
        assert_eq!(decode(s.as_bytes()), s);
    }
}

#[test]
fn gbk_text_only_without_errors() {
    assert_eq!(gbk_text(("中文".to_string(), false)), Some("中文".to_string()));
    assert_eq!(gbk_text(("\u{FFFD}".to_string(), true)), None);
}
