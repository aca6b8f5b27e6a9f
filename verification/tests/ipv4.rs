use lanswitch_core::ipv4::{format_ipv4, mask_octets_of, parse_ipv4};

#[test]
fn parse_and_format_round_trip() {
    let cases = [
        ((192u8, 168u8, 0u8, 245u8), "192.168.0.245"),
        ((0, 0, 0, 0), "0.0.0.0"),
        ((255, 255, 255, 255), "255.255.255.255"),
        ((10, 0, 100, 7), "10.0.100.7"),
    ];
    for (a, text) in cases {
        assert_eq!(format_ipv4(a), text);
        assert_eq!(parse_ipv4(text), Some(a));
    }
}

#[test]
fn parse_accepts_only_canonical_text() {
    let accepted = [("1.2.3.4", (1u8, 2u8, 3u8, 4u8)), ("127.0.0.1", (127, 0, 0, 1)), ("0.0.0.0", (0, 0, 0, 0))];
    for (text, a) in accepted {
        assert_eq!(parse_ipv4(text), Some(a), "{text:?}");
    }
    let refused = [
        "01.2.3.4", "1.2.3.04", "00.0.0.0", "1.2.3", "1.2.3.4.", ".1.2.3.4", "256.1.1.1",
        "1.2.3.4\n", " 1.2.3.4", "1.2.3.-4", "1.2.3.+4", "1234.1.1.1", "a.b.c.d", "1.2.3.4:80", "",
        "...", "1.2.3.4.5", "\u{661}.2.3.4",
    ];
    for text in refused {
        assert_eq!(parse_ipv4(text), None, "{text:?}");
    }
}

#[test]
fn mask_octets_per_prefix() {
    assert_eq!(mask_octets_of(0), (0, 0, 0, 0));
    assert_eq!(mask_octets_of(12), (255, 240, 0, 0));
    assert_eq!(mask_octets_of(32), (255, 255, 255, 255));
    for p in 0u8..=32 {
        let bits: u32 = if p == 0 { 0 } else { u32::MAX << (32 - p as u32) };
        let o = bits.to_be_bytes();
        assert_eq!(mask_octets_of(p), (o[0], o[1], o[2], o[3]));
    }
}
