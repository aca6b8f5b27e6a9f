//! What each operation must do with the parts of its input, stated directly
//! in terms of inputs and results.

use vstd::prelude::*;

use crate::commands::{macos, platform_commands, windows, Platform};
use crate::discover::lowercase;
use crate::ipv4::{ipv4_text, is_ipv4_text, mask_octets};
use crate::text::{contains_seq, occurs_at};
use crate::tray::custom_preset_of;
use crate::types::{ApplyRequestView, Mode, PresetView};
use crate::validate::{
    apply_outcome, first_bad_address, interface_name_error, is_interface_name_char,
    non_empty_entries,
};

verus! {

/// The mask a static request is applied with, from its prefix (24 when absent).
pub open spec fn mask_for(prefix: Option<u8>) -> Seq<char> {
    ipv4_text(
        mask_octets(
            match prefix {
                Some(p) => p as int,
                None => 24,
            },
        ),
    )
}

/// `t` occurs in `s` as a run of consecutive characters.
pub open spec fn has_run(s: Seq<char>, t: Seq<char>) -> bool {
    exists|i: int| 0 <= i && i + t.len() <= s.len() && #[trigger] s.subrange(i, i + t.len()) == t
}

proof fn lemma_has_run(s: Seq<char>, t: Seq<char>)
    ensures
        has_run(s, t) == contains_seq(s, t),
{
    if has_run(s, t) {
        let i = choose|i: int|
            0 <= i && i + t.len() <= s.len() && #[trigger] s.subrange(i, i + t.len()) == t;
        assert(occurs_at(s, t, i));
    }
    if contains_seq(s, t) {
        let i = choose|i: int| occurs_at(s, t, i);
        assert(s.subrange(i, i + t.len()) == t);
    }
}

/// The texts of `s` that are not empty, in order.
pub open spec fn non_empty_texts(s: Seq<Seq<char>>) -> Seq<Seq<char>> {
    s.filter(|d: Seq<char>| d.len() > 0)
}

proof fn lemma_non_empty_entries(s: Seq<Seq<char>>)
    ensures
        non_empty_entries(s) == non_empty_texts(s),
    decreases s.len(),
{
    reveal(Seq::filter);
    if s.len() > 0 {
        lemma_non_empty_entries(s.drop_last());
    }
}

/// When every non-empty entry is an address, no entry is a bad address.
proof fn lemma_no_bad_address(s: Seq<Seq<char>>)
    requires
        forall|i: int| 0 <= i < s.len() && (#[trigger] s[i]).len() > 0 ==> is_ipv4_text(s[i]),
    ensures
        first_bad_address(s) is None,
    decreases s.len(),
{
    if s.len() > 0 {
        let t = s.drop_last();
        assert forall|i: int| 0 <= i < t.len() && (#[trigger] t[i]).len() > 0 implies is_ipv4_text(
            t[i],
        ) by {
            assert(t[i] == s[i]);
        }
        lemma_no_bad_address(t);
        assert(s.last() == s[s.len() - 1]);
    }
}

/// With no bad entry, every non-empty entry is an address.
proof fn lemma_no_bad_means_valid(s: Seq<Seq<char>>)
    requires
        first_bad_address(s) is None,
    ensures
        forall|i: int| 0 <= i < s.len() && (#[trigger] s[i]).len() > 0 ==> is_ipv4_text(s[i]),
    decreases s.len(),
{
    if s.len() > 0 {
        let t = s.drop_last();
        lemma_no_bad_means_valid(t);
        assert forall|i: int| 0 <= i < s.len() && (#[trigger] s[i]).len() > 0 implies is_ipv4_text(
            s[i],
        ) by {
            if i < s.len() - 1 {
                assert(s[i] == t[i]);
            } else {
                assert(s[i] == s.last());
            }
        }
    }
}

/// A bad entry makes some non-empty entry not an address.
proof fn lemma_bad_address_found(s: Seq<Seq<char>>)
    requires
        first_bad_address(s) is Some,
    ensures
        exists|i: int|
            0 <= i < s.len() && (#[trigger] s[i]).len() > 0 && !is_ipv4_text(s[i]),
    decreases s.len(),
{
    let t = s.drop_last();
    if first_bad_address(t) is Some {
        lemma_bad_address_found(t);
        let i = choose|i: int| 0 <= i < t.len() && (#[trigger] t[i]).len() > 0 && !is_ipv4_text(t[i]);
        assert(s[i] == t[i]);
    } else {
        assert(s[s.len() - 1] == s.last());
    }
}

// ---------------------------------------------------------------------------
// Commands
// ---------------------------------------------------------------------------

/// On Windows the address command is `netsh interface ip set address
/// name=<interface>` and then `dhcp`, or `static <ip> <mask>` followed by the
/// gateway only when the request has one: 9 arguments without a gateway, 10
/// with the gateway last.
pub proof fn law_windows_address_arguments(r: ApplyRequestView)
    ensures
        ({
            let c = platform_commands(Platform::Windows, r)[0];
            &&& c.subrange(0, 6) == seq![
                "netsh"@,
                "interface"@,
                "ip"@,
                "set"@,
                "address"@,
                "name="@ + r.interface,
            ]
            &&& r.mode == Mode::Dhcp ==> c.len() == 7 && c[6] == "dhcp"@
            &&& r.mode == Mode::Static ==> {
                &&& c[6] == "static"@
                &&& c[7] == (match r.ip {
                    Some(ip) => ip,
                    None => seq![],
                })
                &&& c[8] == mask_for(r.prefix)
                &&& r.gateway is None ==> c.len() == 9
                &&& r.gateway matches Some(g) ==> c.len() == 10 && c[9] == g
            }
        }),
{
    let c = platform_commands(Platform::Windows, r)[0];
    assert(c == windows::address_command(r));
    assert(c.subrange(0, 6) =~= seq![
        "netsh"@,
        "interface"@,
        "ip"@,
        "set"@,
        "address"@,
        "name="@ + r.interface,
    ]);
}

/// On macOS the address command is `networksetup -setdhcp <interface>`, or
/// `networksetup -setmanual <interface> <ip> <mask> <router>` whose router is
/// the gateway when there is one and the request's own IP otherwise.
pub proof fn law_macos_address_arguments(r: ApplyRequestView)
    ensures
        ({
            let c = platform_commands(Platform::MacOs, r)[0];
            let ip = match r.ip {
                Some(ip) => ip,
                None => seq![],
            };
            &&& r.mode == Mode::Dhcp ==> c == seq!["networksetup"@, "-setdhcp"@, r.interface]
            &&& r.mode == Mode::Static ==> {
                &&& c.len() == 6
                &&& c[0] == "networksetup"@ && c[1] == "-setmanual"@ && c[2] == r.interface
                &&& c[3] == ip
                &&& c[4] == mask_for(r.prefix)
                &&& c[5] == (match r.gateway {
                    Some(g) => g,
                    None => ip,
                })
            }
        }),
{
    assert(platform_commands(Platform::MacOs, r)[0] == macos::address_command(r));
}

/// The DNS commands: on macOS one `-setdnsservers` with every server in order,
/// or with `Empty` when none are given and clearing is asked for; on Windows
/// the first server set statically and each further one added at index 2, 3,
/// …, or DHCP-provided DNS when none are given and clearing is asked for; and
/// no DNS command at all when neither.
pub proof fn law_dns_arguments(r: ApplyRequestView)
    ensures
        r.dns.len() > 0 ==> {
            let m = platform_commands(Platform::MacOs, r)[1];
            let w = platform_commands(Platform::Windows, r);
            &&& m.len() == 3 + r.dns.len()
            &&& m.subrange(0, 3) == seq!["networksetup"@, "-setdnsservers"@, r.interface]
            &&& m.subrange(3, m.len() as int) == r.dns
            &&& w[1] == seq![
                "netsh"@,
                "interface"@,
                "ip"@,
                "set"@,
                "dns"@,
                "name="@ + r.interface,
                "static"@,
                r.dns[0],
            ]
            &&& forall|k: int|
                1 <= k < r.dns.len() ==> (#[trigger] w[k + 1]).len() == 8 && w[k + 1][3] == "add"@
                    && w[k + 1][6] == r.dns[k] && w[k + 1][7] == "index="@ + crate::text::decimal(
                    (k + 1) as nat,
                )
        },
        r.dns.len() == 0 && r.dns_clear ==> platform_commands(Platform::MacOs, r)[1] == seq![
            "networksetup"@,
            "-setdnsservers"@,
            r.interface,
            "Empty"@,
        ] && platform_commands(Platform::Windows, r)[1] == seq![
            "netsh"@,
            "interface"@,
            "ip"@,
            "set"@,
            "dns"@,
            "name="@ + r.interface,
            "dhcp"@,
        ],
        r.dns.len() == 0 && !r.dns_clear ==> platform_commands(Platform::MacOs, r).len() == 1
            && platform_commands(Platform::Windows, r).len() == 1,
{
    if r.dns.len() > 0 {
        let m = platform_commands(Platform::MacOs, r)[1];
        assert(m == seq!["networksetup"@, "-setdnsservers"@, r.interface] + r.dns);
        assert(m.subrange(0, 3) =~= seq!["networksetup"@, "-setdnsservers"@, r.interface]);
        assert(m.subrange(3, m.len() as int) =~= r.dns);
        let w = platform_commands(Platform::Windows, r);
        assert forall|k: int| 1 <= k < r.dns.len() implies (#[trigger] w[k + 1]).len() == 8 && w[k
            + 1][3] == "add"@ && w[k + 1][6] == r.dns[k] && w[k + 1][7] == "index="@
            + crate::text::decimal((k + 1) as nat) by {
            assert(w[k + 1] == windows::add_dns_command(r, r.dns[(k - 1) + 1], ((k - 1) + 2) as nat));
        }
    }
}

// ---------------------------------------------------------------------------
// Validation
// ---------------------------------------------------------------------------

/// A request that validation builds carries the interface, the mode and the
/// DNS-clearing flag of the preset; for a static preset also its IP and prefix
/// unchanged, its gateway unless that is empty, and its non-empty DNS servers
/// in order; for DHCP nothing else.
pub proof fn law_validated_request_carries_preset(
    p: PresetView,
    interface: Seq<char>,
    live: Seq<Seq<char>>,
)
    requires
        apply_outcome(p, interface, live) is Ok,
    ensures
        ({
            let r = apply_outcome(p, interface, live)->Ok_0;
            &&& r.interface == interface
            &&& r.mode == p.mode
            &&& r.dns_clear == p.dns_clear
            &&& p.mode == Mode::Static ==> {
                &&& r.ip == p.ip
                &&& r.prefix == p.prefix
                &&& r.gateway == (match p.gateway {
                    Some(g) => if g.len() > 0 {
                        Some(g)
                    } else {
                        None
                    },
                    None => None,
                })
                &&& r.dns == non_empty_texts(p.dns)
            }
            &&& p.mode == Mode::Dhcp ==> r.ip is None && r.prefix is None && r.gateway is None
                && r.dns.len() == 0
        }),
{
    lemma_non_empty_entries(p.dns);
}

/// Validation accepts a preset exactly when the interface name is acceptable
/// and live and, for a static preset, it has an IPv4 address, a prefix of at
/// most 32, a gateway that is empty, absent or an address, and only DNS
/// entries that are empty or addresses.
pub proof fn law_validation_accepts_exactly(p: PresetView, interface: Seq<char>, live: Seq<Seq<char>>)
    ensures
        apply_outcome(p, interface, live) is Ok <==> {
            &&& interface_name_error(interface) is None
            &&& live.contains(interface)
            &&& p.mode == Mode::Static ==> {
                &&& p.ip matches Some(ip) && is_ipv4_text(ip)
                &&& p.prefix matches Some(x) && x <= 32
                &&& (p.gateway matches Some(g) && g.len() > 0) ==> is_ipv4_text(p.gateway->0)
                &&& forall|i: int|
                    0 <= i < p.dns.len() && (#[trigger] p.dns[i]).len() > 0 ==> is_ipv4_text(
                        p.dns[i],
                    )
            }
        },
{
    if forall|i: int|
        0 <= i < p.dns.len() && (#[trigger] p.dns[i]).len() > 0 ==> is_ipv4_text(p.dns[i]) {
        lemma_no_bad_address(p.dns);
    }
    if first_bad_address(p.dns) is Some {
        lemma_bad_address_found(p.dns);
    } else {
        lemma_no_bad_means_valid(p.dns);
    }
}

/// Every name of 1 to 128 ASCII letters, digits, spaces and `- _ / ( ) .` is
/// an acceptable interface name.
pub proof fn law_interface_names_accepted(name: Seq<char>)
    requires
        1 <= name.len() <= 128,
        forall|i: int|
            0 <= i < name.len() ==> {
                let c = #[trigger] name[i];
                ||| ('a' <= c && c <= 'z')
                ||| ('A' <= c && c <= 'Z')
                ||| ('0' <= c && c <= '9')
                ||| c == ' ' || c == '-' || c == '_' || c == '/' || c == '(' || c == ')' || c == '.'
            },
    ensures
        interface_name_error(name) is None,
{
    assert forall|i: int| 0 <= i < name.len() implies is_interface_name_char(#[trigger] name[i]) by {}
    crate::laws::lemma_ascii_utf8_len(name);
}

/// A name is refused when it is empty, or holds any character other than
/// ASCII letters, digits, spaces and `- _ / ( ) .`.
pub proof fn law_interface_names_refused(name: Seq<char>, i: int)
    requires
        name.len() == 0 || (0 <= i < name.len() && !{
            let c = name[i];
            ||| ('a' <= c && c <= 'z')
            ||| ('A' <= c && c <= 'Z')
            ||| ('0' <= c && c <= '9')
            ||| c == ' ' || c == '-' || c == '_' || c == '/' || c == '(' || c == ')' || c == '.'
        }),
    ensures
        interface_name_error(name) is Some,
{
    if name.len() > 0 {
        assert(!is_interface_name_char(name[i]));
    }
}

// ---------------------------------------------------------------------------
// The custom preset
// ---------------------------------------------------------------------------

/// The custom preset is a static preset with the given IP and prefix, the
/// gateway unless empty, the non-empty DNS servers in order, and DNS clearing
/// exactly when it was asked for with `Some(true)`.
pub proof fn law_custom_preset_fields(
    ip: Seq<char>,
    prefix: u8,
    gateway: Option<Seq<char>>,
    dns: Seq<Seq<char>>,
    dns_clear: Option<bool>,
)
    ensures
        ({
            let q = custom_preset_of(ip, prefix, gateway, dns, dns_clear);
            &&& q.mode == Mode::Static
            &&& q.ip == Some(ip)
            &&& q.prefix == Some(prefix)
            &&& q.gateway == (match gateway {
                Some(g) => if g.len() > 0 {
                    Some(g)
                } else {
                    None
                },
                None => None,
            })
            &&& q.dns == non_empty_texts(dns)
            &&& q.dns_clear == (dns_clear == Some(true))
            &&& q.id == "custom"@ && q.name == "Custom"@ && q.color.len() == 0
        }),
{
    lemma_non_empty_entries(dns);
}

// ---------------------------------------------------------------------------
// Kinds of port
// ---------------------------------------------------------------------------

/// On Windows an adapter whose lowercased description mentions `wi-fi` or
/// `wireless` is Wi-Fi; otherwise one that mentions `usb` is USB Ethernet;
/// otherwise Ethernet.
pub proof fn law_windows_kind(desc: Seq<char>)
    ensures
        ({
            let k = crate::discover::windows::kind_from_lowercase(desc);
            &&& (has_run(desc, "wi-fi"@) || has_run(desc, "wireless"@)) ==> k == "Wi-Fi"@
            &&& !(has_run(desc, "wi-fi"@) || has_run(desc, "wireless"@)) && has_run(desc, "usb"@)
                ==> k == "USB Ethernet"@
            &&& !(has_run(desc, "wi-fi"@) || has_run(desc, "wireless"@) || has_run(desc, "usb"@))
                ==> k == "Ethernet"@
        }),
{
    lemma_has_run(desc, "wi-fi"@);
    lemma_has_run(desc, "wireless"@);
    lemma_has_run(desc, "usb"@);
}

/// On Windows the kind reported for a named adapter is that of its
/// lowercased description (the empty text when it has none).
pub proof fn law_windows_adapter_kind(
    a: crate::discover::windows::AdapterView,
    ips: Seq<(Option<Seq<char>>, Option<Seq<char>>)>,
)
    requires
        a.name is Some,
    ensures
        ({
            let d = lowercase(
                match a.description {
                    Some(d) => d,
                    None => seq![],
                },
            );
            let k = crate::discover::windows::adapter_interface(a, ips)->0.kind;
            &&& (has_run(d, "wi-fi"@) || has_run(d, "wireless"@)) ==> k == Some("Wi-Fi"@)
            &&& !(has_run(d, "wi-fi"@) || has_run(d, "wireless"@)) && has_run(d, "usb"@) ==> k
                == Some("USB Ethernet"@)
        }),
{
    let d = lowercase(
        match a.description {
            Some(d) => d,
            None => seq![],
        },
    );
    law_windows_kind(d);
}

/// On macOS a service whose lowercased name mentions `wi-fi`, `wifi` or
/// `airport` is Wi-Fi; otherwise `usb` means USB Ethernet, then `thunderbolt`
/// Thunderbolt; otherwise Ethernet.
pub proof fn law_macos_kind(name: Seq<char>)
    ensures
        ({
            let k = crate::discover::macos::kind_from_lowercase(name);
            let wifi = has_run(name, "wi-fi"@) || has_run(name, "wifi"@) || has_run(
                name,
                "airport"@,
            );
            &&& wifi ==> k == "Wi-Fi"@
            &&& !wifi && has_run(name, "usb"@) ==> k == "USB Ethernet"@
            &&& !wifi && !has_run(name, "usb"@) && has_run(name, "thunderbolt"@) ==> k
                == "Thunderbolt"@
            &&& !wifi && !has_run(name, "usb"@) && !has_run(name, "thunderbolt"@) ==> k
                == "Ethernet"@
        }),
{
    lemma_has_run(name, "wi-fi"@);
    lemma_has_run(name, "wifi"@);
    lemma_has_run(name, "airport"@);
    lemma_has_run(name, "usb"@);
    lemma_has_run(name, "thunderbolt"@);
}

} // verus!
