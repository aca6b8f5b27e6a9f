use lanswitch_core::discover::macos::{
    guess_kind, parse_getinfo, parse_service_list, service_interface, ServiceEntry,
};
use lanswitch_core::discover::windows::{
    interfaces_from_json, interfaces_from_output, list_interfaces, AdapterRecord, AddressRecord,
    JsonValue,
};
use lanswitch_core::discover::{fallback, live_interface_names};
use lanswitch_core::types::Interface;

fn s(x: &str) -> Option<String> {
    Some(x.to_string())
}

#[test]
fn service_list_skips_header_and_marks_disabled() {
    let text = "An asterisk (*) denotes that a network service is disabled.\n\
                USB 10/100/1000 LAN\r\n\
                *Thunderbolt Bridge\n\
                \n\
                **  \n\
                Wi-Fi  \n";
    let entries = parse_service_list(text);
    let got: Vec<(String, bool)> = entries.iter().map(|e| (e.name.clone(), e.disabled)).collect();
    assert_eq!(
        got,
        vec![
            ("USB 10/100/1000 LAN".to_string(), false),
            ("Thunderbolt Bridge".to_string(), true),
            ("Wi-Fi".to_string(), false),
        ]
    );
    assert!(parse_service_list("").is_empty());
    assert!(parse_service_list("header only").is_empty());
}

#[test]
fn getinfo_reads_first_address_line() {
    let text = "DHCP Configuration\nIP address: 192.168.0.245\nSubnet mask: 255.255.255.0\nIP address: 1.1.1.1\n";
    assert_eq!(parse_getinfo(text), (s("192.168.0.245"), true));
    assert_eq!(parse_getinfo("IP address: none\n"), (None, false));
    assert_eq!(parse_getinfo("IP address:   \n"), (None, false));
    assert_eq!(parse_getinfo("Manual Configuration\nRouter: 10.0.0.1"), (None, false));
    assert_eq!(parse_getinfo("IP address: 10.0.0.245 \r\n"), (s("10.0.0.245"), true));
    assert_eq!(parse_getinfo(""), (None, false));
}

#[test]
fn kinds_from_names() {
    assert_eq!(guess_kind("Wi-Fi"), "Wi-Fi");
    assert_eq!(guess_kind("AirPort"), "Wi-Fi");
    assert_eq!(guess_kind("USB 10/100/1000 LAN"), "USB Ethernet");
    assert_eq!(guess_kind("Thunderbolt Bridge"), "Thunderbolt");
    assert_eq!(guess_kind("Ethernet"), "Ethernet");
    assert_eq!(guess_kind("WIFI dongle via USB"), "Wi-Fi");
}

#[test]
fn service_interface_combines_state() {
    let e = ServiceEntry { name: "Wi-Fi".to_string(), disabled: true };
    let i = service_interface(&e, s("10.0.0.1"), true);
    assert_eq!(i.name, "Wi-Fi");
    assert!(!i.connected);
    assert_eq!(i.current_ip, s("10.0.0.1"));
    assert_eq!(i.kind, s("Wi-Fi"));
    let e = ServiceEntry { name: "USB LAN".to_string(), disabled: false };
    let i = service_interface(&e, None, true);
    assert!(i.connected);
    assert_eq!(i.kind, s("USB Ethernet"));
}

#[test]
fn windows_adapters_to_interfaces() {
    let adapters = vec![
        AdapterRecord { name: s("Ethernet"), status: s("Up"), description: s("Intel(R) Ethernet Connection") },
        AdapterRecord { name: None, status: s("Up"), description: None },
        AdapterRecord { name: s("Wi-Fi"), status: s("Disconnected"), description: s("Intel(R) Wireless-AC 9560") },
        AdapterRecord { name: s("Ethernet 2"), status: s("uP"), description: s("ASIX AX88179 USB 3.0") },
        AdapterRecord { name: s("Ethernet 3"), status: None, description: None },
    ];
    let ips = vec![
        AddressRecord { alias: s("Loopback"), address: s("127.0.0.1") },
        AddressRecord { alias: s("Ethernet"), address: s("192.168.0.245") },
        AddressRecord { alias: s("Ethernet"), address: s("169.254.1.1") },
        AddressRecord { alias: s("Ethernet 2"), address: None },
        AddressRecord { alias: s("Ethernet 2"), address: s("10.0.0.9") },
    ];
    let list = list_interfaces(&adapters, &ips);
    let got: Vec<(String, bool, Option<String>, Option<String>)> = list
        .iter()
        .map(|i| (i.name.clone(), i.connected, i.current_ip.clone(), i.kind.clone()))
        .collect();
    assert_eq!(
        got,
        vec![
            ("Ethernet".to_string(), true, s("192.168.0.245"), s("Ethernet")),
            ("Wi-Fi".to_string(), false, None, s("Wi-Fi")),
            ("Ethernet 2".to_string(), true, None, s("USB Ethernet")),
            ("Ethernet 3".to_string(), false, None, s("Ethernet")),
        ]
    );
}

#[test]
fn names_and_fallback() {
    let list = vec![
        Interface { name: "Wi-Fi".to_string(), connected: true, current_ip: None, kind: None },
        Interface { name: "Ethernet".to_string(), connected: false, current_ip: None, kind: None },
    ];
    assert_eq!(live_interface_names(list), vec!["Wi-Fi".to_string(), "Ethernet".to_string()]);
    assert!(fallback::list_interfaces().is_empty());
}

fn summary(list: &[Interface]) -> Vec<(String, bool, Option<String>, Option<String>)> {
    list.iter().map(|i| (i.name.clone(), i.connected, i.current_ip.clone(), i.kind.clone())).collect()
}

#[test]
fn powershell_output_arrays() {
    let text = r#"{"adapters":[{"Name":"Ethernet","Status":"Up","InterfaceDescription":"Intel(R) Ethernet"},{"Name":"Wi-Fi","Status":"Disconnected","InterfaceDescription":"Intel(R) WIRELESS-AC"},{"Name":7,"Status":"Up"}],"ips":[{"InterfaceAlias":"Ethernet","IPAddress":"192.168.0.245"},{"InterfaceAlias":"Wi-Fi","IPAddress":null}]}"#;
    assert_eq!(
        summary(&interfaces_from_output(text)),
        vec![
            ("Ethernet".to_string(), true, s("192.168.0.245"), s("Ethernet")),
            ("Wi-Fi".to_string(), false, None, s("Wi-Fi")),
        ]
    );
}

#[test]
fn powershell_output_lone_objects_and_null() {
    let text = r#"{"adapters":{"Name":"Ethernet 2","Status":"UP","InterfaceDescription":"ASIX USB 3.0"},"ips":{"InterfaceAlias":"Ethernet 2","IPAddress":"10.0.0.9"}}"#;
    assert_eq!(
        summary(&interfaces_from_output(text)),
        vec![("Ethernet 2".to_string(), true, s("10.0.0.9"), s("USB Ethernet"))]
    );
    let text = r#"{"adapters":{"Name":"Ethernet"},"ips":null}"#;
    assert_eq!(summary(&interfaces_from_output(text)), vec![("Ethernet".to_string(), false, None, s("Ethernet"))]);
    assert!(interfaces_from_output(r#"{"adapters":null,"ips":[]}"#).is_empty());
    assert!(interfaces_from_output("[1, 2]").is_empty());
    assert!(interfaces_from_output("not json").is_empty());
    assert!(interfaces_from_output("").is_empty());
}

fn obj(entries: Vec<(&str, JsonValue)>) -> JsonValue {
    JsonValue::Object(entries.into_iter().map(|(k, v)| (k.to_string(), v)).collect())
}

fn text(t: &str) -> JsonValue {
    JsonValue::Text(t.to_string())
}

#[test]
fn interfaces_from_given_json() {
    let root = obj(vec![
        (
            "adapters",
            JsonValue::Array(vec![
                obj(vec![("Name", text("Ethernet")), ("Status", text("Up")), ("InterfaceDescription", text("USB NIC"))]),
                obj(vec![("Name", JsonValue::Number("3".to_string()))]),
                JsonValue::Null,
                obj(vec![("Name", text("Wi-Fi")), ("Status", JsonValue::Bool(true))]),
            ]),
        ),
        ("ips", obj(vec![("InterfaceAlias", text("Wi-Fi")), ("IPAddress", text("10.1.1.1"))])),
    ]);
    assert_eq!(
        summary(&interfaces_from_json(&root)),
        vec![
            ("Ethernet".to_string(), true, None, s("USB Ethernet")),
            ("Wi-Fi".to_string(), false, s("10.1.1.1"), s("Ethernet")),
        ]
    );
    assert!(interfaces_from_json(&JsonValue::Array(vec![root])).is_empty());
    assert!(interfaces_from_json(&obj(vec![("adapters", text("x"))])).is_empty());
}
