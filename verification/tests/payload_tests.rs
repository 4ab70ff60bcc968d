use rns_proxy::payload::{decode_connect_payload, encode_connect_payload, parse_port};

#[test]
fn connect_payload_is_host_colon_port() {
    assert_eq!(encode_connect_payload("example.com", 443), b"example.com:443".to_vec());
    assert_eq!(encode_connect_payload("10.0.0.1", 0), b"10.0.0.1:0".to_vec());
    assert_eq!(encode_connect_payload("h", 65535), b"h:65535".to_vec());
}

#[test]
fn connect_payload_reads_back() {
    for (host, port) in [("example.com", 80u16), ("::1", 8080), ("", 1), ("bücher.de", 443)] {
        let p = encode_connect_payload(host, port);
        assert_eq!(decode_connect_payload(&p), Some((host.to_string(), port)));
    }
}

#[test]
fn connect_payload_splits_at_last_colon() {
    assert_eq!(
        decode_connect_payload(b"2001:db8::1:22"),
        Some(("2001:db8::1".to_string(), 22))
    );
}

#[test]
fn connect_payload_rejections() {
    assert_eq!(decode_connect_payload(b"example.com"), None);
    assert_eq!(decode_connect_payload(b"example.com:"), None);
    assert_eq!(decode_connect_payload(b"example.com:80a"), None);
    assert_eq!(decode_connect_payload(b"example.com:65536"), None);
    assert_eq!(decode_connect_payload(b"example.com:-1"), None);
    assert_eq!(decode_connect_payload(&[0xff, 0xfe, b':', b'8', b'0']), None);
    assert_eq!(decode_connect_payload(b""), None);
}

#[test]
fn parse_port_values() {
    assert_eq!(parse_port(b"0"), Some(0));
    assert_eq!(parse_port(b"80"), Some(80));
    assert_eq!(parse_port(b"00080"), Some(80));
    assert_eq!(parse_port(b"65535"), Some(65535));
    assert_eq!(parse_port(b"65536"), None);
    assert_eq!(parse_port(b"999999999999"), None);
    assert_eq!(parse_port(b""), None);
    assert_eq!(parse_port(b"+80"), None);
}
