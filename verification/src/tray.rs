//! The decisions behind the NIC-first tray menu and the settings window's
//! commands: labels, the ids of menu actions, which preset an action names,
//! and the one-off preset built from a custom address.

use vstd::prelude::*;

use crate::text::{decimal, decimal_string, str_equal};
use crate::types::{opt_text, Interface, InterfaceView, Mode, Preset, PresetView};
use crate::validate::{non_empty_entries, non_empty_opt, parse_subnet, parse_subnet_outcome};

verus! {

// ---------------------------------------------------------------------------
// Labels
// ---------------------------------------------------------------------------

/// A preset row: a mode glyph (a dot for static, a circular arrow for DHCP),
/// two spaces, the preset's name — tray menus are text-only on most OSes.
pub open spec fn preset_label(p: PresetView) -> Seq<char> {
    (match p.mode {
        Mode::Static => "\u{25cf}"@,
        Mode::Dhcp => "\u{21bb}"@,
    }) + "  "@ + p.name
}

/// Prefix preset rows with a mode hint.
pub fn preset_menu_label(p: &Preset) -> (res: String)
    ensures
        res@ == preset_label(p@),
{
    let mut out = match p.mode {
        Mode::Static => String::from_str("\u{25cf}"),
        Mode::Dhcp => String::from_str("\u{21bb}"),
    };
    out.append("  ");
    out.append(p.name.as_str());
    out
}

/// An interface's submenu title: its name and its current IP, or `(no IP)`.
pub open spec fn interface_label(i: InterfaceView) -> Seq<char> {
    i.name + "   \u{b7}   "@ + match i.current_ip {
        Some(ip) => ip,
        None => "(no IP)"@,
    }
}

/// The submenu title of an interface.
pub fn interface_menu_label(i: &Interface) -> (res: String)
    ensures
        res@ == interface_label(i@),
{
    let mut out = String::from_str(i.name.as_str());
    out.append("   \u{b7}   ");
    match &i.current_ip {
        Some(ip) => out.append(ip.as_str()),
        None => out.append("(no IP)"),
    }
    out
}

/// The notification shown after a change: `LANSwitch · <interface>` over
/// `<before>  →  <after>`.
pub fn applied_notice(interface: &str, before: &str, after: &str) -> (res: (String, String))
    ensures
        res.0@ == "LANSwitch \u{b7} "@ + interface@,
        res.1@ == before@ + "  \u{2192}  "@ + after@,
{
    let mut title = String::from_str("LANSwitch \u{b7} ");
    title.append(interface);
    let mut body = String::from_str(before);
    body.append("  \u{2192}  ");
    body.append(after);
    (title, body)
}

/// The notification shown when applying failed: `LANSwitch — failed` over the
/// error.
pub fn failed_notice(error: &str) -> (res: (String, String))
    ensures
        res.0@ == "LANSwitch \u{2014} failed"@,
        res.1@ == error@,
{
    (String::from_str("LANSwitch \u{2014} failed"), String::from_str(error))
}

// ---------------------------------------------------------------------------
// Looking things up
// ---------------------------------------------------------------------------

/// The current IP of the first interface named `name` (from position `from`
/// on), or `no IP` when it has none or no interface has that name.
pub open spec fn ip_of(interfaces: Seq<InterfaceView>, name: Seq<char>, from: int) -> Seq<char>
    decreases interfaces.len() - from,
{
    if from < 0 || from >= interfaces.len() {
        "no IP"@
    } else if interfaces[from].name == name {
        match interfaces[from].current_ip {
            Some(ip) => ip,
            None => "no IP"@,
        }
    } else {
        ip_of(interfaces, name, from + 1)
    }
}

/// Current IPv4 of an interface by friendly name, or "no IP".
pub fn current_ip_of(interfaces: &Vec<Interface>, interface: &str) -> (res: String)
    ensures
        res@ == ip_of(interfaces@.map_values(|i: Interface| i@), interface@, 0),
{
    let ghost all = interfaces@.map_values(|i: Interface| i@);
    let mut k: usize = 0;
    while k < interfaces.len()
        invariant
            k <= interfaces.len(),
            all == interfaces@.map_values(|i: Interface| i@),
            ip_of(all, interface@, 0) == ip_of(all, interface@, k as int),
        decreases interfaces.len() - k,
    {
        if str_equal(interfaces[k].name.as_str(), interface) {
            return match &interfaces[k].current_ip {
                Some(ip) => ip.clone(),
                None => String::from_str("no IP"),
            };
        }
        k = k + 1;
    }
    String::from_str("no IP")
}

/// The position of the first preset with id `id` (from position `from` on).
pub open spec fn index_with_id(presets: Seq<Preset>, id: Seq<char>, from: int) -> Option<int>
    decreases presets.len() - from,
{
    if from < 0 || from >= presets.len() {
        None
    } else if presets[from].id@ == id {
        Some(from)
    } else {
        index_with_id(presets, id, from + 1)
    }
}

/// The position of the first preset with id `id`, if any.
pub fn find_preset(presets: &[Preset], id: &str) -> (res: Option<usize>)
    ensures
        match res {
            Some(k) => index_with_id(presets@, id@, 0) == Some(k as int),
            None => index_with_id(presets@, id@, 0) is None,
        },
{
    let mut k: usize = 0;
    while k < presets.len()
        invariant
            k <= presets.len(),
            index_with_id(presets@, id@, 0) == index_with_id(presets@, id@, k as int),
        decreases presets.len() - k,
    {
        if str_equal(presets[k].id.as_str(), id) {
            return Some(k);
        }
        k = k + 1;
    }
    None
}

/// The error for a tray row whose preset is no longer saved.
pub fn row_preset_missing_message() -> (res: String)
    ensures
        res@ == "preset not found"@,
{
    String::from_str("preset not found")
}

/// The error for a preset id that names no preset.
pub fn missing_preset_message(id: &str) -> (res: String)
    ensures
        res@ == "preset \""@ + id@ + "\" not found"@,
{
    let mut msg = String::from_str("preset \"");
    msg.append(id);
    msg.append("\" not found");
    msg
}

// ---------------------------------------------------------------------------
// Custom addresses
// ---------------------------------------------------------------------------

/// The unsaved preset that applies a custom address: static, the given IP, the
/// prefix that the subnet text gives, the gateway unless empty, the non-empty
/// DNS servers, and DNS clearing only when asked for.
pub open spec fn custom_preset_of(
    ip: Seq<char>,
    prefix: u8,
    gateway: Option<Seq<char>>,
    dns: Seq<Seq<char>>,
    dns_clear: Option<bool>,
) -> PresetView {
    PresetView {
        id: "custom"@,
        name: "Custom"@,
        color: seq![],
        mode: Mode::Static,
        ip: Some(ip),
        prefix: Some(prefix),
        gateway: non_empty_opt(gateway),
        dns: non_empty_entries(dns),
        dns_clear: match dns_clear {
            Some(b) => b,
            None => false,
        },
    }
}

/// Builds the preset for an ad-hoc, unsaved config. `subnet` accepts a prefix
/// ("24", "/24") or a dotted mask ("255.255.255.0"); its error is returned as
/// text. The helper still re-validates everything.
pub fn custom_preset(
    ip: String,
    subnet: &str,
    gateway: Option<String>,
    dns: Vec<String>,
    dns_clear: Option<bool>,
) -> (res: Result<Preset, String>)
    ensures
        match res {
            Ok(p) => parse_subnet_outcome(subnet@) matches Ok(prefix) && p@ == custom_preset_of(
                ip@,
                prefix,
                opt_text(gateway),
                dns.deep_view(),
                dns_clear,
            ),
            Err(m) => parse_subnet_outcome(subnet@) == Err::<u8, Seq<char>>(m@),
        },
{
    let prefix = match parse_subnet(subnet) {
        Ok(p) => p,
        Err(e) => {
            return Err(e.to_string());
        },
    };
    let gateway = match gateway {
        Some(g) => if g.as_str().is_empty() {
            None
        } else {
            Some(g)
        },
        None => None,
    };
    let mut kept: Vec<String> = Vec::new();
    let mut i: usize = 0;
    while i < dns.len()
        invariant
            i <= dns.len(),
            kept.deep_view() == non_empty_entries(dns.deep_view().take(i as int)),
        decreases dns.len() - i,
    {
        assert(dns.deep_view().take(i + 1).drop_last() =~= dns.deep_view().take(i as int));
        assert(dns.deep_view().take(i + 1).last() == dns[i as int]@);
        if !dns[i].as_str().is_empty() {
            let ghost before = kept.deep_view();
            kept.push(dns[i].clone());
            assert(kept.deep_view() =~= before.push(dns[i as int]@));
        }
        i = i + 1;
    }
    assert(dns.deep_view().take(i as int) =~= dns.deep_view());
    let p = Preset {
        id: String::from_str("custom"),
        name: String::from_str("Custom"),
        color: String::new(),
        mode: Mode::Static,
        ip: Some(ip),
        prefix: Some(prefix),
        gateway,
        dns: kept,
        dns_clear: match dns_clear {
            Some(b) => b,
            None => false,
        },
    };
    Ok(p)
}

// ---------------------------------------------------------------------------
// The menu
// ---------------------------------------------------------------------------

/// One clickable row: its id, its label, and the preset it applies (the
/// custom-address row carries the marker `__custom__` instead).
#[derive(Debug, Clone)]
pub struct MenuEntry {
    pub id: String,
    pub label: String,
    pub preset_id: String,
}

/// The submenu of one interface.
#[derive(Debug, Clone)]
pub struct InterfaceMenu {
    pub interface: String,
    pub label: String,
    pub entries: Vec<MenuEntry>,
    pub custom: MenuEntry,
}

/// The marker that a row opens the custom-address form.
pub open spec fn custom_marker() -> Seq<char> {
    "__custom__"@
}

/// Whether an action's preset id is the custom-address marker.
pub fn is_custom_entry(preset_id: &str) -> (res: bool)
    ensures
        res == (preset_id@ == custom_marker()),
{
    str_equal(preset_id, "__custom__")
}

/// The number that the row of preset `j` under interface `k` is given: rows
/// are numbered in menu order, each interface taking one per preset and one
/// for its custom row.
pub open spec fn row_number(k: int, j: int, n_presets: int) -> int {
    k * (n_presets + 1) + j
}

/// Whether `m` is the submenu built for `iface` at position `k` with `presets`.
pub open spec fn is_interface_menu(m: InterfaceMenu, iface: Interface, k: int, presets: Seq<Preset>) -> bool {
    let n = presets.len() as int;
    &&& m.interface@ == iface.name@
    &&& m.label@ == interface_label(iface@)
    &&& m.entries@.len() == n
    &&& forall|j: int|
        0 <= j < n ==> {
            &&& (#[trigger] m.entries@[j]).id@ == "act"@ + decimal(row_number(k, j, n) as nat)
            &&& m.entries@[j].label@ == preset_label(presets[j]@)
            &&& m.entries@[j].preset_id@ == presets[j].id@
        }
    &&& m.custom.id@ == "custom"@ + decimal(row_number(k, n, n) as nat)
    &&& m.custom.label@ == "\u{270e}  Custom IP\u{2026}"@
    &&& m.custom.preset_id@ == custom_marker()
}

/// The submenu of interface `k`, whose rows are numbered from `first`.
fn interface_menu(iface: &Interface, presets: &Vec<Preset>, first: u64) -> (res: InterfaceMenu)
    requires
        first + presets.len() <= u64::MAX,
    ensures
        res.interface@ == iface.name@,
        res.label@ == interface_label(iface@),
        res.entries@.len() == presets.len(),
        forall|j: int|
            0 <= j < presets.len() ==> {
                &&& (#[trigger] res.entries@[j]).id@ == "act"@ + decimal((first + j) as nat)
                &&& res.entries@[j].label@ == preset_label(presets[j]@)
                &&& res.entries@[j].preset_id@ == presets[j].id@
            },
        res.custom.id@ == "custom"@ + decimal((first + presets.len()) as nat),
        res.custom.label@ == "\u{270e}  Custom IP\u{2026}"@,
        res.custom.preset_id@ == custom_marker(),
{
    let mut entries: Vec<MenuEntry> = Vec::new();
    let mut j: usize = 0;
    while j < presets.len()
        invariant
            j <= presets.len(),
            first + presets.len() <= u64::MAX,
            entries@.len() == j,
            forall|i: int|
                0 <= i < j ==> {
                    &&& (#[trigger] entries@[i]).id@ == "act"@ + decimal((first + i) as nat)
                    &&& entries@[i].label@ == preset_label(presets[i]@)
                    &&& entries@[i].preset_id@ == presets[i].id@
                },
        decreases presets.len() - j,
    {
        let mut id = String::from_str("act");
        let number = decimal_string(first + j as u64);
        id.append(number.as_str());
        let label = preset_menu_label(&presets[j]);
        let preset_id = presets[j].id.clone();
        entries.push(MenuEntry { id, label, preset_id });
        j = j + 1;
    }
    let mut custom_id = String::from_str("custom");
    let number = decimal_string(first + presets.len() as u64);
    custom_id.append(number.as_str());
    proof {
        reveal_strlit("__custom__");
    }
    InterfaceMenu {
        interface: iface.name.clone(),
        label: interface_menu_label(iface),
        entries,
        custom: MenuEntry {
            id: custom_id,
            label: String::from_str("\u{270e}  Custom IP\u{2026}"),
            preset_id: String::from_str("__custom__"),
        },
    }
}

/// The interfaces that are connected, in the order of the list.
pub open spec fn connected_interfaces(interfaces: Seq<Interface>) -> Seq<Interface>
    decreases interfaces.len(),
{
    if interfaces.len() == 0 {
        seq![]
    } else if interfaces.last().connected {
        connected_interfaces(interfaces.drop_last()).push(interfaces.last())
    } else {
        connected_interfaces(interfaces.drop_last())
    }
}

/// One submenu per connected interface, in the order of the list, listing the
/// presets and then a custom-address row; the ids number the rows of these
/// submenus in menu order.
pub fn menu_plan(interfaces: &Vec<Interface>, presets: &Vec<Preset>) -> (res: Vec<InterfaceMenu>)
    requires
        interfaces.len() * (presets.len() + 1) <= u64::MAX,
    ensures
        res@.len() == connected_interfaces(interfaces@).len(),
        forall|k: int|
            0 <= k < res@.len() ==> is_interface_menu(
                #[trigger] res@[k],
                connected_interfaces(interfaces@)[k],
                k,
                presets@,
            ),
{
    let n = presets.len() as u64;
    let mut res: Vec<InterfaceMenu> = Vec::new();
    let mut counter: u64 = 0;
    let mut k: usize = 0;
    while k < interfaces.len()
        invariant
            k <= interfaces.len(),
            n == presets.len(),
            interfaces.len() * (n + 1) <= u64::MAX,
            res@.len() == connected_interfaces(interfaces@.take(k as int)).len(),
            res@.len() <= k,
            counter == res@.len() * (n + 1),
            forall|i: int|
                0 <= i < res@.len() ==> is_interface_menu(
                    #[trigger] res@[i],
                    connected_interfaces(interfaces@.take(k as int))[i],
                    i,
                    presets@,
                ),
        decreases interfaces.len() - k,
    {
        let ghost before = connected_interfaces(interfaces@.take(k as int));
        assert(interfaces@.take(k + 1).drop_last() =~= interfaces@.take(k as int));
        assert(interfaces@.take(k + 1).last() == interfaces@[k as int]);
        if interfaces[k].connected {
            let r = res.len();
            proof {
                assert((r + 1) * (n + 1) <= interfaces.len() * (n + 1)) by (nonlinear_arith)
                    requires
                        r + 1 <= interfaces.len(),
                ;
                assert((r + 1) * (n + 1) == r * (n + 1) + n + 1) by (nonlinear_arith);
            }
            let m = interface_menu(&interfaces[k], presets, counter);
            proof {
                assert forall|j: int| 0 <= j < n implies (counter + j) as nat == row_number(
                    r as int,
                    j,
                    n as int,
                ) as nat by {}
                assert(is_interface_menu(m, interfaces@[k as int], r as int, presets@));
            }
            res.push(m);
            counter = counter + n + 1;
            proof {
                let after = connected_interfaces(interfaces@.take(k + 1));
                assert(after == before.push(interfaces@[k as int]));
                assert forall|i: int| 0 <= i < res@.len() implies is_interface_menu(
                    #[trigger] res@[i],
                    after[i],
                    i,
                    presets@,
                ) by {}
            }
        }
        k = k + 1;
    }
    assert(interfaces@.take(k as int) =~= interfaces@);
    res
}

/// The disabled row that stands in for the submenus when there is no
/// interface at all: `Some("No network interfaces found")` for an empty list,
/// `None` otherwise.
pub fn no_interfaces_row(interfaces: &Vec<Interface>) -> (res: Option<String>)
    ensures
        interfaces@.len() == 0 ==> opt_text(res) == Some("No network interfaces found"@),
        interfaces@.len() > 0 ==> res is None,
{
    if interfaces.len() == 0 {
        Some(String::from_str("No network interfaces found"))
    } else {
        None
    }
}

/// What a menu id asks for.
#[derive(Debug, Clone, Copy, PartialEq, Eq, Structural)]
pub enum MenuCommand {
    ShowSettings,
    RefreshInterfaces,
    OpenSupportLink,
    Quit,
    /// Any other id: an apply or custom-address row, looked up by its id.
    Row,
}

/// The command that a menu id stands for.
pub open spec fn menu_command_of(id: Seq<char>) -> MenuCommand {
    if id == "settings"@ {
        MenuCommand::ShowSettings
    } else if id == "refresh"@ {
        MenuCommand::RefreshInterfaces
    } else if id == "support"@ {
        MenuCommand::OpenSupportLink
    } else if id == "quit"@ {
        MenuCommand::Quit
    } else {
        MenuCommand::Row
    }
}

/// Which command a clicked menu id stands for.
pub fn classify_menu_id(id: &str) -> (res: MenuCommand)
    ensures
        res == menu_command_of(id@),
{
    if str_equal(id, "settings") {
        MenuCommand::ShowSettings
    } else if str_equal(id, "refresh") {
        MenuCommand::RefreshInterfaces
    } else if str_equal(id, "support") {
        MenuCommand::OpenSupportLink
    } else if str_equal(id, "quit") {
        MenuCommand::Quit
    } else {
        MenuCommand::Row
    }
}

} // verus!
