use lanswitch_core::commands::Platform;
use lanswitch_core::helper::{
    bad_request, join_args, plan_request, response_result, step_response, StepOutcome,
};
use lanswitch_core::types::{HelperRequest, HelperResponse, Mode, Preset};

fn preset(mode: Mode) -> Preset {
    Preset {
        id: "lighting8".to_string(),
        name: "Lighting (/8)".to_string(),
        color: String::new(),
        mode,
        ip: Some("10.0.0.245".to_string()),
        prefix: Some(8),
        gateway: None,
        dns: vec![],
        dns_clear: false,
    }
}

fn argv() -> Vec<String> {
    vec!["networksetup".to_string(), "-setdhcp".to_string(), "Wi-Fi".to_string()]
}

#[test]
fn responses() {
    let ok = HelperResponse::ok();
    assert!(ok.ok && ok.error.is_none());
    let e = HelperResponse::err("nope".to_string());
    assert!(!e.ok);
    assert_eq!(e.error.as_deref(), Some("nope"));
    assert_eq!(bad_request("EOF while parsing").error.as_deref(), Some("bad request: EOF while parsing"));
}

#[test]
fn plan_revalidates() {
    let live = vec!["Wi-Fi".to_string()];
    let req = HelperRequest { preset: preset(Mode::Static), interface: "Wi-Fi".to_string() };
    let cmds = plan_request(&req, &live, Platform::MacOs).unwrap();
    assert_eq!(cmds.len(), 1);
    assert_eq!(cmds[0][4], "255.0.0.0");
    let forged = HelperRequest { preset: preset(Mode::Static), interface: "en0".to_string() };
    let r = plan_request(&forged, &live, Platform::MacOs).unwrap_err();
    assert!(!r.ok);
    assert_eq!(r.error.as_deref(), Some("interface \"en0\" is not currently present"));
    let dhcp = HelperRequest { preset: preset(Mode::Dhcp), interface: "Wi-Fi".to_string() };
    assert_eq!(
        plan_request(&dhcp, &live, Platform::Windows).unwrap(),
        vec![vec![
            "netsh".to_string(),
            "interface".to_string(),
            "ip".to_string(),
            "set".to_string(),
            "address".to_string(),
            "name=Wi-Fi".to_string(),
            "dhcp".to_string()
        ]]
    );
    assert_eq!(plan_request(&dhcp, &live, Platform::Other).unwrap(), vec![vec!["true".to_string()]]);
    let mut clearing = preset(Mode::Dhcp);
    clearing.dns_clear = true;
    let req = HelperRequest { preset: clearing, interface: "Wi-Fi".to_string() };
    assert_eq!(
        plan_request(&req, &live, Platform::MacOs).unwrap(),
        vec![
            vec!["networksetup".to_string(), "-setdhcp".to_string(), "Wi-Fi".to_string()],
            vec![
                "networksetup".to_string(),
                "-setdnsservers".to_string(),
                "Wi-Fi".to_string(),
                "Empty".to_string()
            ],
        ]
    );
}

#[test]
fn step_outcomes() {
    assert!(step_response(&argv(), &StepOutcome::Succeeded).is_none());
    let r = step_response(
        &argv(),
        &StepOutcome::Failed { stderr: "  \n".to_string(), stdout: " ** Error: no such service\n".to_string() },
    )
    .unwrap();
    assert!(!r.ok);
    assert_eq!(
        r.error.as_deref(),
        Some("step `networksetup -setdhcp Wi-Fi` failed: ** Error: no such service")
    );
    let r = step_response(
        &argv(),
        &StepOutcome::Failed { stderr: " denied \n".to_string(), stdout: "ignored".to_string() },
    )
    .unwrap();
    assert_eq!(r.error.as_deref(), Some("step `networksetup -setdhcp Wi-Fi` failed: denied"));
    let r = step_response(&argv(), &StepOutcome::NotStarted { error: "not found".to_string() })
        .unwrap();
    assert_eq!(r.error.as_deref(), Some("could not run `networksetup -setdhcp Wi-Fi`: not found"));
}

#[test]
fn joining() {
    assert_eq!(join_args(&argv()), "networksetup -setdhcp Wi-Fi");
    assert_eq!(join_args(&vec![]), "");
    assert_eq!(join_args(&vec!["a".to_string(), "".to_string(), "b".to_string()]), "a  b");
}

#[test]
fn client_results() {
    assert_eq!(response_result(HelperResponse::ok()), Ok(()));
    assert_eq!(response_result(HelperResponse::err("boom".to_string())), Err("boom".to_string()));
    assert_eq!(
        response_result(HelperResponse { ok: false, error: None }),
        Err("unknown helper error".to_string())
    );
}
