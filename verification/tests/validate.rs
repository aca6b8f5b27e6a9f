use lanswitch_core::types::{Mode, Preset};
use lanswitch_core::validate::{
    mask_to_prefix, parse_subnet, prefix_to_mask, validate_apply, validate_interface_name,
};

fn static_preset(ip: Option<&str>, prefix: Option<u8>) -> Preset {
    Preset {
        id: "coda".to_string(),
        name: "Coda Audio".to_string(),
        color: "#3B82F6".to_string(),
        mode: Mode::Static,
        ip: ip.map(|s| s.to_string()),
        prefix,
        gateway: None,
        dns: vec![],
        dns_clear: false,
    }
}

fn live() -> Vec<String> {
    vec!["Wi-Fi".to_string(), "USB 10/100/1000 LAN".to_string()]
}

#[test]
fn masks() {
    assert_eq!(prefix_to_mask(24), "255.255.255.0");
    assert_eq!(prefix_to_mask(8), "255.0.0.0");
    assert_eq!(prefix_to_mask(16), "255.255.0.0");
    assert_eq!(prefix_to_mask(0), "0.0.0.0");
}

#[test]
fn subnet_parsing() {
    assert_eq!(parse_subnet("24").unwrap(), 24);
    assert_eq!(parse_subnet("/24").unwrap(), 24);
    assert_eq!(parse_subnet("255.255.255.0").unwrap(), 24);
    assert_eq!(parse_subnet("255.0.0.0").unwrap(), 8);
    assert!(parse_subnet("255.255.0.255").is_err()); // non-contiguous
    assert!(parse_subnet("40").is_err());
}

#[test]
fn rejects_bad_interface() {
    assert!(validate_interface_name("Wi-Fi; rm -rf /").is_err());
    assert!(validate_interface_name("USB 10/100/1000 LAN").is_ok());
    assert!(validate_interface_name("Ethernet 2").is_ok());
}

#[test]
fn masks_of_every_width() {
    assert_eq!(prefix_to_mask(32), "255.255.255.255");
    assert_eq!(prefix_to_mask(1), "128.0.0.0");
    assert_eq!(prefix_to_mask(25), "255.255.255.128");
    assert_eq!(prefix_to_mask(20), "255.255.240.0");
    assert_eq!(prefix_to_mask(31), "255.255.255.254");
}

#[test]
fn mask_round_trip_for_every_prefix() {
    for p in 0u8..=32 {
        assert_eq!(mask_to_prefix(&prefix_to_mask(p)), Some(p));
        assert_eq!(parse_subnet(&prefix_to_mask(p)).unwrap(), p);
        assert_eq!(parse_subnet(&p.to_string()).unwrap(), p);
        assert_eq!(parse_subnet(&format!("/{p}")).unwrap(), p);
    }
}

#[test]
fn mask_to_prefix_rejects() {
    assert_eq!(mask_to_prefix("255.255.0.255"), None);
    assert_eq!(mask_to_prefix("255.255.255"), None);
    assert_eq!(mask_to_prefix("255.255.255.00"), None);
    assert_eq!(mask_to_prefix("0.255.255.255"), None);
    assert_eq!(mask_to_prefix("256.0.0.0"), None);
    assert_eq!(mask_to_prefix("255.254.0.0"), Some(15));
}

#[test]
fn subnet_edge_cases() {
    assert_eq!(parse_subnet("  24\t").unwrap(), 24);
    assert_eq!(parse_subnet("//24").unwrap(), 24);
    assert_eq!(parse_subnet("+24").unwrap(), 24);
    assert_eq!(parse_subnet("024").unwrap(), 24);
    assert_eq!(parse_subnet(" 255.255.255.0 ").unwrap(), 24);
    assert_eq!(parse_subnet("0").unwrap(), 0);
    assert_eq!(parse_subnet("32").unwrap(), 32);
    assert_eq!(parse_subnet("/ 24").unwrap_err().0, "not a valid prefix length: / 24");
    assert_eq!(parse_subnet("").unwrap_err().0, "not a valid prefix length: ");
    assert_eq!(parse_subnet("-1").unwrap_err().0, "not a valid prefix length: -1");
    assert_eq!(parse_subnet("256").unwrap_err().0, "not a valid prefix length: 256");
    assert_eq!(parse_subnet("40").unwrap_err().0, "prefix length must be between 0 and 32");
    assert_eq!(
        parse_subnet("255.255.0.255").unwrap_err().0,
        "not a valid subnet mask: 255.255.0.255"
    );
    assert_eq!(parse_subnet("1.2.3").unwrap_err().to_string(), "not a valid subnet mask: 1.2.3");
}

#[test]
fn interface_name_messages() {
    assert_eq!(
        validate_interface_name("").unwrap_err().0,
        "interface name has an invalid length"
    );
    assert_eq!(
        validate_interface_name(&"a".repeat(129)).unwrap_err().0,
        "interface name has an invalid length"
    );
    assert!(validate_interface_name(&"a".repeat(128)).is_ok());
    // 65 two-byte characters are 130 bytes: too long, even though each is refused too.
    assert_eq!(
        validate_interface_name(&"\u{e9}".repeat(65)).unwrap_err().0,
        "interface name has an invalid length"
    );
    assert_eq!(
        validate_interface_name("Wi-Fi$").unwrap_err().0,
        "interface name contains unsupported characters"
    );
    assert!(validate_interface_name("Thunderbolt Bridge (2).x_y").is_ok());
    assert!(validate_interface_name("eth0`id`").is_err());
    assert!(validate_interface_name("a|b").is_err());
}

#[test]
fn validate_static_preset() {
    let mut p = static_preset(Some("192.168.0.245"), Some(24));
    p.gateway = Some(String::new());
    p.dns = vec!["".to_string(), "1.1.1.1".to_string(), "".to_string(), "8.8.8.8".to_string()];
    p.dns_clear = true;
    let r = validate_apply(&p, "Wi-Fi", &live()).unwrap();
    assert_eq!(r.interface, "Wi-Fi");
    assert_eq!(r.mode, Mode::Static);
    assert_eq!(r.ip.as_deref(), Some("192.168.0.245"));
    assert_eq!(r.prefix, Some(24));
    assert_eq!(r.gateway, None);
    assert_eq!(r.dns, vec!["1.1.1.1".to_string(), "8.8.8.8".to_string()]);
    assert!(r.dns_clear);
}

#[test]
fn validate_dhcp_preset_keeps_only_dns_clearing() {
    let mut p = static_preset(Some("garbage"), Some(99));
    p.mode = Mode::Dhcp;
    p.dns = vec!["1.1.1.1".to_string()];
    p.dns_clear = true;
    let r = validate_apply(&p, "USB 10/100/1000 LAN", &live()).unwrap();
    assert_eq!(r.mode, Mode::Dhcp);
    assert_eq!(r.ip, None);
    assert_eq!(r.prefix, None);
    assert_eq!(r.gateway, None);
    assert!(r.dns.is_empty());
    assert!(r.dns_clear);
    p.dns_clear = false;
    let r = validate_apply(&p, "USB 10/100/1000 LAN", &live()).unwrap();
    assert!(!r.dns_clear);
}

#[test]
fn validate_errors_in_order() {
    let p = static_preset(Some("192.168.0.245"), Some(24));
    assert_eq!(
        validate_apply(&p, "Wi-Fi; rm -rf /", &live()).unwrap_err().0,
        "interface name contains unsupported characters"
    );
    assert_eq!(
        validate_apply(&p, "Ethernet", &live()).unwrap_err().0,
        "interface \"Ethernet\" is not currently present"
    );
    assert_eq!(
        validate_apply(&static_preset(None, Some(24)), "Wi-Fi", &live()).unwrap_err().0,
        "static preset is missing an IP address"
    );
    assert_eq!(
        validate_apply(&static_preset(Some("192.168.0.256"), None), "Wi-Fi", &live())
            .unwrap_err()
            .0,
        "IP address is not a valid IPv4 address: 192.168.0.256"
    );
    assert_eq!(
        validate_apply(&static_preset(Some("10.0.0.245"), None), "Wi-Fi", &live())
            .unwrap_err()
            .0,
        "static preset is missing a prefix length"
    );
    assert_eq!(
        validate_apply(&static_preset(Some("10.0.0.245"), Some(33)), "Wi-Fi", &live())
            .unwrap_err()
            .0,
        "prefix length must be between 0 and 32"
    );
    let mut g = static_preset(Some("10.0.0.245"), Some(8));
    g.gateway = Some("10.0.0.1.5".to_string());
    g.dns = vec!["bad".to_string()];
    assert_eq!(
        validate_apply(&g, "Wi-Fi", &live()).unwrap_err().0,
        "gateway is not a valid IPv4 address: 10.0.0.1.5"
    );
    let mut d = static_preset(Some("10.0.0.245"), Some(8));
    d.dns = vec!["1.1.1.1".to_string(), "".to_string(), "9.9.9.x".to_string(), "bad".to_string()];
    assert_eq!(
        validate_apply(&d, "Wi-Fi", &live()).unwrap_err().0,
        "DNS server is not a valid IPv4 address: 9.9.9.x"
    );
}

#[test]
fn ipv4_text_is_strict() {
    for bad in ["01.2.3.4", "1.2.3.4 ", "1.2.3", "1..2.3", "+1.2.3.4", "1.2.3.4.5", "1.2.3.256", ""] {
        let p = static_preset(Some(bad), Some(24));
        assert!(validate_apply(&p, "Wi-Fi", &live()).is_err(), "{bad}");
    }
    for good in ["0.0.0.0", "255.255.255.255", "2.0.0.245", "10.0.0.0"] {
        let p = static_preset(Some(good), Some(24));
        assert!(validate_apply(&p, "Wi-Fi", &live()).is_ok(), "{good}");
    }
}
