//! Windows: `netsh`, which overwrites cleanly. `name=` takes the friendly alias.

use vstd::prelude::*;

use crate::commands::{
    buildable, push_command, push_string, push_text, request_ip, request_mask, request_mask_text,
    text_or,
};
use crate::text::{decimal, decimal_string};
use crate::types::{ApplyRequest, ApplyRequestView, Mode};

verus! {

/// The `name=<alias>` argument.
pub open spec fn name_arg(r: ApplyRequestView) -> Seq<char> {
    "name="@ + r.interface
}

/// The command that sets the address: DHCP, or a static address with its mask
/// and the gateway when there is one.
pub open spec fn address_command(r: ApplyRequestView) -> Seq<Seq<char>> {
    seq!["netsh"@, "interface"@, "ip"@, "set"@, "address"@, name_arg(r)] + match r.mode {
        Mode::Dhcp => seq!["dhcp"@],
        Mode::Static => seq!["static"@, text_or(r.ip, seq![]), request_mask(r)] + match r.gateway {
            Some(g) => seq![g],
            None => seq![],
        },
    }
}

/// The command that adds DNS server `server` at position `index`.
pub open spec fn add_dns_command(r: ApplyRequestView, server: Seq<char>, index: nat) -> Seq<
    Seq<char>,
> {
    seq!["netsh"@, "interface"@, "ip"@, "add"@, "dns"@, name_arg(r), server, "index="@ + decimal(index)]
}

/// DNS: the first server replaces the list, the rest are appended by index
/// (from 2); with no servers, clearing reverts to DHCP-provided DNS.
pub open spec fn dns_commands(r: ApplyRequestView) -> Seq<Seq<Seq<char>>> {
    if r.dns.len() > 0 {
        seq![seq!["netsh"@, "interface"@, "ip"@, "set"@, "dns"@, name_arg(r), "static"@, r.dns[0]]]
            + Seq::new(
            (r.dns.len() - 1) as nat,
            |i: int| add_dns_command(r, r.dns[i + 1], (i + 2) as nat),
        )
    } else if r.dns_clear {
        seq![seq!["netsh"@, "interface"@, "ip"@, "set"@, "dns"@, name_arg(r), "dhcp"@]]
    } else {
        seq![]
    }
}

/// Address first, then DNS.
pub open spec fn commands(r: ApplyRequestView) -> Seq<Seq<Seq<char>>> {
    seq![address_command(r)] + dns_commands(r)
}

/// The start of every `netsh` command: `netsh interface ip <verb> <what> name=<alias>`.
fn netsh_head(verb: &str, what: &str, name: &String) -> (res: Vec<String>)
    ensures
        res.deep_view() == seq!["netsh"@, "interface"@, "ip"@, verb@, what@, name@],
{
    let mut c: Vec<String> = Vec::new();
    push_text(&mut c, "netsh");
    push_text(&mut c, "interface");
    push_text(&mut c, "ip");
    push_text(&mut c, verb);
    push_text(&mut c, what);
    push_string(&mut c, name);
    assert(c.deep_view() =~= seq!["netsh"@, "interface"@, "ip"@, verb@, what@, name@]);
    c
}

/// The `netsh` argv vectors that apply `req`.
pub fn build_commands(req: &ApplyRequest) -> (res: Vec<Vec<String>>)
    requires
        buildable(req@),
    ensures
        res.deep_view() == commands(req@),
{
    let mut cmds: Vec<Vec<String>> = Vec::new();
    let mut name = String::from_str("name=");
    name.append(req.interface.as_str());
    let mut addr = netsh_head("set", "address", &name);
    match req.mode {
        Mode::Dhcp => {
            push_text(&mut addr, "dhcp");
        },
        Mode::Static => {
            let ip = request_ip(req);
            let mask = request_mask_text(req);
            push_text(&mut addr, "static");
            push_string(&mut addr, &ip);
            push_string(&mut addr, &mask);
            match &req.gateway {
                Some(gw) => push_string(&mut addr, gw),
                None => {},
            }
        },
    }
    assert(addr.deep_view() =~= address_command(req@));
    push_command(&mut cmds, addr);
    if req.dns.len() > 0 {
        let mut first = netsh_head("set", "dns", &name);
        push_text(&mut first, "static");
        push_string(&mut first, &req.dns[0]);
        push_command(&mut cmds, first);
        let ghost head = cmds.deep_view();
        let ghost r = req@;
        let mut i: usize = 1;
        while i < req.dns.len()
            invariant
                1 <= i <= req.dns.len(),
                r == req@,
                name@ == name_arg(r),
                cmds.deep_view() == head + Seq::new(
                    (i - 1) as nat,
                    |k: int| add_dns_command(r, r.dns[k + 1], (k + 2) as nat),
                ),
            decreases req.dns.len() - i,
        {
            let mut c = netsh_head("add", "dns", &name);
            push_string(&mut c, &req.dns[i]);
            let mut index = String::from_str("index=");
            let number = decimal_string((i + 1) as u64);
            index.append(number.as_str());
            push_string(&mut c, &index);
            assert(c.deep_view() =~= add_dns_command(r, r.dns[i as int], (i + 1) as nat));
            push_command(&mut cmds, c);
            assert(head + Seq::new(
                i as nat,
                |k: int| add_dns_command(r, r.dns[k + 1], (k + 2) as nat),
            ) =~= (head + Seq::new(
                (i - 1) as nat,
                |k: int| add_dns_command(r, r.dns[k + 1], (k + 2) as nat),
            )).push(add_dns_command(r, r.dns[i as int], (i + 1) as nat)));
            i = i + 1;
        }
    } else if req.dns_clear {
        let mut c = netsh_head("set", "dns", &name);
        push_text(&mut c, "dhcp");
        push_command(&mut cmds, c);
    }
    assert(cmds.deep_view() =~~= commands(req@));
    cmds
}

} // verus!
