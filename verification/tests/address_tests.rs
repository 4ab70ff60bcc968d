use rns_proxy::address::{format_address, parse_address};

const HASH: [u8; 16] = [
    0x00, 0x01, 0x0a, 0x10, 0x7f, 0x80, 0xab, 0xcd, 0xef, 0xff, 0x12, 0x34, 0x56, 0x78, 0x9a, 0xbc,
];

#[test]
fn format_address_is_lower_case_hex() {
    assert_eq!(format_address(&HASH), "00010a107f80abcdefff123456789abc");
}

#[test]
fn parse_address_accepts_both_cases() {
    assert_eq!(parse_address("00010a107f80abcdefff123456789abc"), Some(HASH));
    assert_eq!(parse_address("00010A107F80ABCDEFFF123456789ABC"), Some(HASH));
}

#[test]
fn parse_address_reads_back_what_format_writes() {
    for seed in 0u8..20 {
        let mut h = [0u8; 16];
        for (i, b) in h.iter_mut().enumerate() {
            *b = seed.wrapping_mul(37).wrapping_add(i as u8 * 11);
        }
        assert_eq!(parse_address(&format_address(&h)), Some(h));
    }
}

#[test]
fn parse_address_rejections() {
    assert_eq!(parse_address(""), None);
    assert_eq!(parse_address("00010a107f80abcdefff123456789a"), None);
    assert_eq!(parse_address("00010a107f80abcdefff123456789abcde"), None);
    assert_eq!(parse_address("00010a107f80abcdefff123456789ab"), None);
    assert_eq!(parse_address("g0010a107f80abcdefff123456789abc"), None);
    assert_eq!(parse_address("é0010a107f80abcdefff123456789ab"), None);
}
