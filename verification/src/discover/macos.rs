//! macOS: `networksetup -listallnetworkservices` lists the friendly service
//! names, one per line after a header, a leading `*` marking a disabled
//! service; `networksetup -getinfo <service>` reports `IP address: x` when the
//! service is active.

use vstd::prelude::*;

use crate::discover::{lowercase, to_lowercase};
use crate::text::{
    contains_exec, contains_seq, line_bounds, lines, skip_char, starts_with, str_equal,
    strip_leading, to_chars, trim, trim_bounds,
};
use crate::types::{opt_text, Interface, InterfaceView};

verus! {

/// A network service as the service list names it.
#[derive(Debug, Clone)]
pub struct ServiceEntry {
    pub name: String,
    pub disabled: bool,
}

/// The name and the disabled mark of the service on one line of the list.
pub open spec fn service_of(line: Seq<char>) -> (Seq<char>, bool) {
    (trim(strip_leading(line, '*')), line.len() > 0 && line[0] == '*')
}

/// The services on the given lines, skipping lines without a name.
pub open spec fn services_on(ls: Seq<Seq<char>>) -> Seq<(Seq<char>, bool)>
    decreases ls.len(),
{
    if ls.len() == 0 {
        seq![]
    } else if service_of(ls.last()).0.len() > 0 {
        services_on(ls.drop_last()).push(service_of(ls.last()))
    } else {
        services_on(ls.drop_last())
    }
}

/// The lines of a listing after its header line.
pub open spec fn after_header(ls: Seq<Seq<char>>) -> Seq<Seq<char>> {
    if ls.len() == 0 {
        ls
    } else {
        ls.drop_first()
    }
}

/// The services of a `-listallnetworkservices` listing.
pub open spec fn service_list(text: Seq<char>) -> Seq<(Seq<char>, bool)> {
    services_on(after_header(lines(text)))
}

pub open spec fn entry_view(e: ServiceEntry) -> (Seq<char>, bool) {
    (e.name@, e.disabled)
}

/// Reads the services out of the output of `networksetup -listallnetworkservices`.
pub fn parse_service_list(text: &str) -> (res: Vec<ServiceEntry>)
    ensures
        res@.map_values(|e: ServiceEntry| entry_view(e)) == service_list(text@),
{
    let chars = to_chars(text);
    let bounds = line_bounds(&chars);
    let ghost ls = lines(text@);
    let ghost body = after_header(ls);
    let mut res: Vec<ServiceEntry> = Vec::new();
    if bounds.len() == 0 {
        assert(res@.map_values(|e: ServiceEntry| entry_view(e)) =~= service_list(text@));
        return res;
    }
    let mut k: usize = 1;
    while k < bounds.len()
        invariant
            1 <= k <= bounds.len(),
            bounds@.len() == ls.len(),
            chars@ == text@,
            ls == lines(text@),
            body == ls.drop_first(),
            forall|j: int|
                0 <= j < bounds@.len() ==> {
                    &&& (#[trigger] bounds@[j]).0 <= bounds@[j].1 <= chars.len()
                    &&& chars@.subrange(bounds@[j].0 as int, bounds@[j].1 as int) == ls[j]
                },
            res@.map_values(|e: ServiceEntry| entry_view(e)) == services_on(body.take(k - 1)),
        decreases bounds.len() - k,
    {
        let (a, b) = bounds[k];
        let ghost line = ls[k as int];
        assert(chars@.subrange(a as int, b as int) == line);
        let disabled = a < b && chars[a] == '*';
        let s = skip_char(&chars, a, b, '*');
        let (x, y) = trim_bounds(&chars, s, b);
        proof {
            assert(chars@.subrange(s as int, b as int) =~= line.subrange(s - a, b - a));
            assert(line.subrange(s - a, b - a) == chars@.subrange(s as int, b as int));
            assert(service_of(line).0 == chars@.subrange(x as int, y as int));
            assert(body.take(k as int).drop_last() =~= body.take(k - 1));
            assert(body.take(k as int).last() == line);
            if a < b {
                assert(line[0] == chars@[a as int]);
            }
        }
        if x < y {
            let name = String::from_str(text.substring_char(x, y));
            res.push(ServiceEntry { name, disabled });
        }
        assert(res@.map_values(|e: ServiceEntry| entry_view(e)) =~= services_on(body.take(k as int)));
        k = k + 1;
    }
    assert(body.take(k - 1) =~= body);
    res
}

/// What `-getinfo` reports on the given lines: the address on the first line
/// that starts with `IP address: `, trimmed; no address (and not connected)
/// when that is empty or `none`, or when no line reports one.
pub open spec fn info_on(ls: Seq<Seq<char>>) -> (Option<Seq<char>>, bool)
    decreases ls.len(),
{
    if ls.len() == 0 {
        (None, false)
    } else if starts_with(ls[0], "IP address: "@) {
        let ip = trim(ls[0].skip(12));
        if ip.len() == 0 || ip == "none"@ {
            (None, false)
        } else {
            (Some(ip), true)
        }
    } else {
        info_on(ls.drop_first())
    }
}

/// Reads `(current IP, connected)` out of the output of `networksetup -getinfo`.
pub fn parse_getinfo(text: &str) -> (res: (Option<String>, bool))
    ensures
        (opt_text(res.0), res.1) == info_on(lines(text@)),
{
    let chars = to_chars(text);
    let bounds = line_bounds(&chars);
    let ghost ls = lines(text@);
    let prefix = to_chars("IP address: ");
    proof {
        reveal_strlit("IP address: ");
    }
    assert(prefix@.len() == 12);
    let mut k: usize = 0;
    assert(ls.skip(0) =~= ls);
    while k < bounds.len()
        invariant
            k <= bounds.len(),
            bounds@.len() == ls.len(),
            chars@ == text@,
            ls == lines(text@),
            prefix@ == "IP address: "@,
            prefix@.len() == 12,
            forall|j: int|
                0 <= j < bounds@.len() ==> {
                    &&& (#[trigger] bounds@[j]).0 <= bounds@[j].1 <= chars.len()
                    &&& chars@.subrange(bounds@[j].0 as int, bounds@[j].1 as int) == ls[j]
                },
            info_on(ls) == info_on(ls.skip(k as int)),
        decreases bounds.len() - k,
    {
        let (a, b) = bounds[k];
        let ghost line = ls[k as int];
        assert(ls.skip(k as int)[0] == line);
        assert(ls.skip(k as int).drop_first() =~= ls.skip(k + 1));
        if b - a >= 12 && crate::text::occurs_at_exec(&chars, &prefix, a) {
            proof {
                assert(chars@.subrange(a as int, a + 12) =~= line.subrange(0, 12));
                assert(starts_with(line, "IP address: "@));
                assert(chars@.subrange(a + 12, b as int) =~= line.skip(12));
            }
            let (x, y) = trim_bounds(&chars, a + 12, b);
            let ip = text.substring_char(x, y);
            if x == y || str_equal(ip, "none") {
                return (None, false);
            }
            return (Some(String::from_str(ip)), true);
        } else {
            proof {
                if starts_with(line, "IP address: "@) {
                    assert(chars@.subrange(a as int, a + 12) =~= line.subrange(0, 12));
                }
            }
        }
        k = k + 1;
    }
    (None, false)
}

/// The kind of port that a (lowercased) service name suggests.
pub open spec fn kind_from_lowercase(name: Seq<char>) -> Seq<char> {
    if contains_seq(name, "wi-fi"@) || contains_seq(name, "wifi"@) || contains_seq(
        name,
        "airport"@,
    ) {
        "Wi-Fi"@
    } else if contains_seq(name, "usb"@) {
        "USB Ethernet"@
    } else if contains_seq(name, "thunderbolt"@) {
        "Thunderbolt"@
    } else {
        "Ethernet"@
    }
}

/// The kind of port that a lowercased service name suggests.
pub fn kind_of_lowercase_name(name: &str) -> (res: String)
    ensures
        res@ == kind_from_lowercase(name@),
{
    let n = to_chars(name);
    if contains_exec(&n, &to_chars("wi-fi")) || contains_exec(&n, &to_chars("wifi"))
        || contains_exec(&n, &to_chars("airport")) {
        String::from_str("Wi-Fi")
    } else if contains_exec(&n, &to_chars("usb")) {
        String::from_str("USB Ethernet")
    } else if contains_exec(&n, &to_chars("thunderbolt")) {
        String::from_str("Thunderbolt")
    } else {
        String::from_str("Ethernet")
    }
}

/// A human hint about the kind of port behind a service, from its name.
pub fn guess_kind(name: &str) -> (res: String)
    ensures
        res@ == kind_from_lowercase(lowercase(name@)),
{
    let lower = to_lowercase(name);
    kind_of_lowercase_name(lower.as_str())
}

/// The interface for a listed service, given what `-getinfo` reported for it.
pub fn service_interface(entry: &ServiceEntry, current_ip: Option<String>, connected: bool) -> (res:
    Interface)
    ensures
        res@ == (InterfaceView {
            name: entry.name@,
            connected: connected && !entry.disabled,
            current_ip: opt_text(current_ip),
            kind: Some(kind_from_lowercase(lowercase(entry.name@))),
        }),
{
    Interface {
        name: entry.name.clone(),
        connected: connected && !entry.disabled,
        current_ip,
        kind: Some(guess_kind(entry.name.as_str())),
    }
}

} // verus!
