use lanswitch_core::commands::{build_commands_for, fallback, macos, windows, Platform};
use lanswitch_core::types::{ApplyRequest, Mode};

fn req(mode: Mode) -> ApplyRequest {
    ApplyRequest {
        interface: "USB 10/100/1000 LAN".to_string(),
        mode,
        ip: Some("192.168.0.245".to_string()),
        prefix: Some(24),
        gateway: None,
        dns: vec![],
        dns_clear: false,
    }
}

fn v(words: &[&str]) -> Vec<String> {
    words.iter().map(|s| s.to_string()).collect()
}

#[test]
fn macos_static_without_gateway_uses_own_ip_as_router() {
    let cmds = macos::build_commands(&req(Mode::Static));
    assert_eq!(
        cmds,
        vec![v(&[
            "networksetup",
            "-setmanual",
            "USB 10/100/1000 LAN",
            "192.168.0.245",
            "255.255.255.0",
            "192.168.0.245"
        ])]
    );
}

#[test]
fn macos_static_with_gateway_and_dns() {
    let mut r = req(Mode::Static);
    r.gateway = Some("192.168.0.1".to_string());
    r.prefix = Some(8);
    r.dns = v(&["1.1.1.1", "8.8.8.8"]);
    let cmds = macos::build_commands(&r);
    assert_eq!(
        cmds,
        vec![
            v(&[
                "networksetup",
                "-setmanual",
                "USB 10/100/1000 LAN",
                "192.168.0.245",
                "255.0.0.0",
                "192.168.0.1"
            ]),
            v(&["networksetup", "-setdnsservers", "USB 10/100/1000 LAN", "1.1.1.1", "8.8.8.8"]),
        ]
    );
}

#[test]
fn macos_dhcp_and_dns_clear() {
    let mut r = req(Mode::Dhcp);
    r.dns_clear = true;
    let cmds = macos::build_commands(&r);
    assert_eq!(
        cmds,
        vec![
            v(&["networksetup", "-setdhcp", "USB 10/100/1000 LAN"]),
            v(&["networksetup", "-setdnsservers", "USB 10/100/1000 LAN", "Empty"]),
        ]
    );
}

#[test]
fn macos_missing_prefix_defaults_to_24() {
    let mut r = req(Mode::Static);
    r.prefix = None;
    r.ip = None;
    let cmds = macos::build_commands(&r);
    assert_eq!(
        cmds,
        vec![v(&["networksetup", "-setmanual", "USB 10/100/1000 LAN", "", "255.255.255.0", ""])]
    );
}

#[test]
fn windows_static_with_dns_indexes() {
    let mut r = req(Mode::Static);
    r.interface = "Ethernet 2".to_string();
    r.gateway = Some("192.168.0.1".to_string());
    r.dns = v(&["1.1.1.1", "8.8.8.8", "9.9.9.9"]);
    let cmds = windows::build_commands(&r);
    assert_eq!(
        cmds,
        vec![
            v(&[
                "netsh",
                "interface",
                "ip",
                "set",
                "address",
                "name=Ethernet 2",
                "static",
                "192.168.0.245",
                "255.255.255.0",
                "192.168.0.1"
            ]),
            v(&["netsh", "interface", "ip", "set", "dns", "name=Ethernet 2", "static", "1.1.1.1"]),
            v(&["netsh", "interface", "ip", "add", "dns", "name=Ethernet 2", "8.8.8.8", "index=2"]),
            v(&["netsh", "interface", "ip", "add", "dns", "name=Ethernet 2", "9.9.9.9", "index=3"]),
        ]
    );
}

#[test]
fn windows_index_past_nine() {
    let mut r = req(Mode::Dhcp);
    r.dns = (1..=11).map(|i| format!("10.0.0.{i}")).collect();
    let cmds = windows::build_commands(&r);
    assert_eq!(cmds.len(), 12);
    assert_eq!(cmds[11].last().unwrap(), "index=11");
    assert_eq!(cmds[0], v(&["netsh", "interface", "ip", "set", "address", "name=USB 10/100/1000 LAN", "dhcp"]));
}

#[test]
fn windows_dhcp_dns_clear() {
    let mut r = req(Mode::Dhcp);
    r.dns_clear = true;
    let cmds = windows::build_commands(&r);
    assert_eq!(
        cmds[1],
        v(&["netsh", "interface", "ip", "set", "dns", "name=USB 10/100/1000 LAN", "dhcp"])
    );
    assert_eq!(cmds.len(), 2);
}

#[test]
fn fallback_is_a_no_op() {
    assert_eq!(fallback::build_commands(&req(Mode::Static)), vec![v(&["true"])]);
    assert_eq!(build_commands_for(Platform::Other, &req(Mode::Dhcp)), vec![v(&["true"])]);
    assert_eq!(
        build_commands_for(Platform::MacOs, &req(Mode::Dhcp)),
        macos::build_commands(&req(Mode::Dhcp))
    );
}
