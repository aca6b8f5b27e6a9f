use lanswitch_core::tray::{
    applied_notice, classify_menu_id, current_ip_of, custom_preset, failed_notice, find_preset,
    interface_menu_label, is_custom_entry, menu_plan, missing_preset_message, preset_menu_label,
    no_interfaces_row, row_preset_missing_message, MenuCommand,
};
use lanswitch_core::types::{is_false, Interface, Mode, Preset};

fn preset(id: &str, name: &str, mode: Mode) -> Preset {
    Preset {
        id: id.to_string(),
        name: name.to_string(),
        color: String::new(),
        mode,
        ip: None,
        prefix: None,
        gateway: None,
        dns: vec![],
        dns_clear: false,
    }
}

fn iface(name: &str, ip: Option<&str>) -> Interface {
    Interface {
        name: name.to_string(),
        connected: true,
        current_ip: ip.map(|s| s.to_string()),
        kind: None,
    }
}

#[test]
fn labels() {
    assert_eq!(preset_menu_label(&preset("coda", "Coda Audio", Mode::Static)), "\u{25cf}  Coda Audio");
    assert_eq!(preset_menu_label(&preset("dhcp", "Automatic (DHCP)", Mode::Dhcp)), "\u{21bb}  Automatic (DHCP)");
    assert_eq!(interface_menu_label(&iface("Wi-Fi", Some("10.0.0.245"))), "Wi-Fi   \u{b7}   10.0.0.245");
    assert_eq!(interface_menu_label(&iface("Ethernet", None)), "Ethernet   \u{b7}   (no IP)");
    let (t, b) = applied_notice("Wi-Fi", "no IP", "10.0.0.245");
    assert_eq!(t, "LANSwitch \u{b7} Wi-Fi");
    assert_eq!(b, "no IP  \u{2192}  10.0.0.245");
    assert_eq!(failed_notice("boom"), ("LANSwitch \u{2014} failed".to_string(), "boom".to_string()));
    assert_eq!(row_preset_missing_message(), "preset not found");
    assert!(is_false(&false));
    assert!(!is_false(&true));
}

#[test]
fn lookups() {
    let list = vec![iface("Wi-Fi", None), iface("Ethernet", Some("192.168.0.245")), iface("Ethernet", Some("1.1.1.1"))];
    assert_eq!(current_ip_of(&list, "Ethernet"), "192.168.0.245");
    assert_eq!(current_ip_of(&list, "Wi-Fi"), "no IP");
    assert_eq!(current_ip_of(&list, "USB"), "no IP");
    let presets = vec![preset("coda", "Coda", Mode::Static), preset("dlive", "dLive", Mode::Static), preset("dlive", "Other", Mode::Dhcp)];
    assert_eq!(find_preset(&presets, "dlive"), Some(1));
    assert_eq!(find_preset(&presets, "video"), None);
    assert_eq!(missing_preset_message("video"), "preset \"video\" not found");
}

#[test]
fn custom_presets() {
    let p = custom_preset(
        "192.168.0.245".to_string(),
        "255.255.255.0",
        Some(String::new()),
        vec!["".to_string(), "1.1.1.1".to_string()],
        None,
    )
    .unwrap();
    assert_eq!(p.id, "custom");
    assert_eq!(p.name, "Custom");
    assert_eq!(p.color, "");
    assert_eq!(p.mode, Mode::Static);
    assert_eq!(p.ip.as_deref(), Some("192.168.0.245"));
    assert_eq!(p.prefix, Some(24));
    assert_eq!(p.gateway, None);
    assert_eq!(p.dns, vec!["1.1.1.1".to_string()]);
    assert!(!p.dns_clear);
    let q = custom_preset("10.0.0.1".to_string(), "/8", Some("10.0.0.254".to_string()), vec![], Some(true)).unwrap();
    assert_eq!(q.prefix, Some(8));
    assert_eq!(q.gateway.as_deref(), Some("10.0.0.254"));
    assert!(q.dns_clear);
    assert_eq!(
        custom_preset("10.0.0.1".to_string(), "abc", None, vec![], None).unwrap_err(),
        "not a valid prefix length: abc"
    );
}

#[test]
fn menu_ids_number_rows_in_order() {
    let ifaces = vec![iface("Wi-Fi", None), iface("Ethernet", Some("10.0.0.245"))];
    let presets = vec![preset("coda", "Coda Audio", Mode::Static), preset("dhcp", "DHCP", Mode::Dhcp)];
    let plan = menu_plan(&ifaces, &presets);
    assert_eq!(plan.len(), 2);
    let ids: Vec<Vec<String>> = plan
        .iter()
        .map(|m| {
            let mut v: Vec<String> = m.entries.iter().map(|e| e.id.clone()).collect();
            v.push(m.custom.id.clone());
            v
        })
        .collect();
    assert_eq!(ids, vec![vec!["act0", "act1", "custom2"], vec!["act3", "act4", "custom5"]]);
    assert_eq!(plan[1].label, "Ethernet   \u{b7}   10.0.0.245");
    assert_eq!(plan[1].interface, "Ethernet");
    assert_eq!(plan[0].entries[1].preset_id, "dhcp");
    assert_eq!(plan[0].entries[1].label, "\u{21bb}  DHCP");
    assert_eq!(plan[0].custom.label, "\u{270e}  Custom IP\u{2026}");
    assert!(is_custom_entry(&plan[0].custom.preset_id));
    assert!(!is_custom_entry("coda"));
    assert!(menu_plan(&vec![], &presets).is_empty());
    let no_presets = menu_plan(&ifaces, &vec![]);
    assert_eq!(no_presets[1].custom.id, "custom1");
}

#[test]
fn menu_commands() {
    assert_eq!(classify_menu_id("settings"), MenuCommand::ShowSettings);
    assert_eq!(classify_menu_id("refresh"), MenuCommand::RefreshInterfaces);
    assert_eq!(classify_menu_id("support"), MenuCommand::OpenSupportLink);
    assert_eq!(classify_menu_id("quit"), MenuCommand::Quit);
    assert_eq!(classify_menu_id("act3"), MenuCommand::Row);
    assert_eq!(classify_menu_id("Quit"), MenuCommand::Row);
}

#[test]
fn menu_leaves_out_disconnected_interfaces() {
    let mut down = iface("Thunderbolt Bridge", None);
    down.connected = false;
    let ifaces = vec![down.clone(), iface("Wi-Fi", None), down, iface("Ethernet", None)];
    let presets = vec![preset("coda", "Coda Audio", Mode::Static)];
    let plan = menu_plan(&ifaces, &presets);
    let got: Vec<(String, String, String)> = plan
        .iter()
        .map(|m| (m.interface.clone(), m.entries[0].id.clone(), m.custom.id.clone()))
        .collect();
    assert_eq!(
        got,
        vec![
            ("Wi-Fi".to_string(), "act0".to_string(), "custom1".to_string()),
            ("Ethernet".to_string(), "act2".to_string(), "custom3".to_string()),
        ]
    );
    let mut only_down = iface("Wi-Fi", None);
    only_down.connected = false;
    assert!(menu_plan(&vec![only_down], &presets).is_empty());
}

#[test]
fn no_interfaces_row_only_for_an_empty_list() {
    assert_eq!(no_interfaces_row(&vec![]), Some("No network interfaces found".to_string()));
    let mut down = iface("Wi-Fi", None);
    down.connected = false;
    assert_eq!(no_interfaces_row(&vec![down]), None);
}
