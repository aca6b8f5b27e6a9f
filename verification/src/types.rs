//! Shared data types used by both the unprivileged app and the privileged
//! helper, each with a mathematical view for contracts.

use vstd::prelude::*;

verus! {

/// The view of an optional string.
pub open spec fn opt_text(o: Option<String>) -> Option<Seq<char>> {
    match o {
        Some(s) => Some(s@),
        None => None,
    }
}

/// How an interface should obtain its address.
#[derive(Debug, Clone, Copy, PartialEq, Eq, Structural)]
pub enum Mode {
    Static,
    Dhcp,
}

/// A network preset the user can apply to an interface.
///
/// Example (Coda Audio): mode=static, ip=192.168.0.245, prefix=24, no gateway.
#[derive(Debug, Clone)]
pub struct Preset {
    /// Stable id, e.g. "coda".
    pub id: String,
    /// Friendly display name, e.g. "Coda Audio".
    pub name: String,
    /// Hex color for the dot shown in the tray, e.g. "#3B82F6".
    pub color: String,
    pub mode: Mode,
    /// Required when mode == Static.
    pub ip: Option<String>,
    /// CIDR prefix length (e.g. 24 or 8). Required when mode == Static.
    pub prefix: Option<u8>,
    /// Optional. Most flat AV LANs have no gateway, so this is usually empty.
    pub gateway: Option<String>,
    /// Optional DNS servers. Usually empty for isolated LANs.
    pub dns: Vec<String>,
    /// When true (and `dns` is empty), revert DNS to automatic/DHCP-provided.
    /// Distinct from leaving DNS untouched.
    pub dns_clear: bool,
}

/// A preset as plain values.
pub struct PresetView {
    pub id: Seq<char>,
    pub name: Seq<char>,
    pub color: Seq<char>,
    pub mode: Mode,
    pub ip: Option<Seq<char>>,
    pub prefix: Option<u8>,
    pub gateway: Option<Seq<char>>,
    pub dns: Seq<Seq<char>>,
    pub dns_clear: bool,
}

impl View for Preset {
    type V = PresetView;

    open spec fn view(&self) -> PresetView {
        PresetView {
            id: self.id@,
            name: self.name@,
            color: self.color@,
            mode: self.mode,
            ip: opt_text(self.ip),
            prefix: self.prefix,
            gateway: opt_text(self.gateway),
            dns: self.dns.deep_view(),
            dns_clear: self.dns_clear,
        }
    }
}

/// The on-disk presets file.
#[derive(Debug, Clone)]
pub struct PresetsFile {
    pub version: u32,
    pub presets: Vec<Preset>,
}

/// A network interface as the user sees it — friendly name only, never a MAC
/// address or cryptic device id.
#[derive(Debug, Clone)]
pub struct Interface {
    /// The friendly name we pass straight back to the OS tools.
    /// macOS: a network *service* name ("Wi-Fi", "USB 10/100/1000 LAN").
    /// Windows: the connection *alias* ("Ethernet", "Wi-Fi", "Ethernet 2").
    pub name: String,
    /// Whether the interface is currently up/connected.
    pub connected: bool,
    /// Current IPv4 address if known (for display next to the name).
    pub current_ip: Option<String>,
    /// A human hint about the kind of port (Wi-Fi / Ethernet / USB), best-effort.
    pub kind: Option<String>,
}

/// An interface as plain values.
pub struct InterfaceView {
    pub name: Seq<char>,
    pub connected: bool,
    pub current_ip: Option<Seq<char>>,
    pub kind: Option<Seq<char>>,
}

impl View for Interface {
    type V = InterfaceView;

    open spec fn view(&self) -> InterfaceView {
        InterfaceView {
            name: self.name@,
            connected: self.connected,
            current_ip: opt_text(self.current_ip),
            kind: opt_text(self.kind),
        }
    }
}

/// A validated, ready-to-apply configuration. Built only via `validate`, so the
/// helper can trust every field.
#[derive(Debug, Clone)]
pub struct ApplyRequest {
    pub interface: String,
    pub mode: Mode,
    pub ip: Option<String>,
    pub prefix: Option<u8>,
    pub gateway: Option<String>,
    pub dns: Vec<String>,
    pub dns_clear: bool,
}

/// An apply request as plain values.
pub struct ApplyRequestView {
    pub interface: Seq<char>,
    pub mode: Mode,
    pub ip: Option<Seq<char>>,
    pub prefix: Option<u8>,
    pub gateway: Option<Seq<char>>,
    pub dns: Seq<Seq<char>>,
    pub dns_clear: bool,
}

impl View for ApplyRequest {
    type V = ApplyRequestView;

    open spec fn view(&self) -> ApplyRequestView {
        ApplyRequestView {
            interface: self.interface@,
            mode: self.mode,
            ip: opt_text(self.ip),
            prefix: self.prefix,
            gateway: opt_text(self.gateway),
            dns: self.dns.deep_view(),
            dns_clear: self.dns_clear,
        }
    }
}

/// What the app sends to the privileged helper. We send the whole preset plus
/// the chosen interface, and let the helper re-validate — the helper never
/// trusts a pre-built command.
#[derive(Debug, Clone)]
pub struct HelperRequest {
    pub preset: Preset,
    pub interface: String,
}

/// Response sent back from the privileged helper over IPC.
#[derive(Debug, Clone)]
pub struct HelperResponse {
    pub ok: bool,
    pub error: Option<String>,
}

impl HelperResponse {
    /// A successful response.
    pub fn ok() -> (res: Self)
        ensures
            res.ok,
            res.error is None,
    {
        Self { ok: true, error: None }
    }

    /// A failed response carrying `msg`.
    pub fn err(msg: String) -> (res: Self)
        ensures
            !res.ok,
            opt_text(res.error) == Some(msg@),
    {
        Self { ok: false, error: Some(msg) }
    }
}

/// Whether a flag is unset; the serialized form leaves `false` flags out.
pub fn is_false(b: &bool) -> (res: bool)
    ensures
        res == !*b,
{
    !*b
}

} // verus!
