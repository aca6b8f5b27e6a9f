//! macOS: `networksetup`, which speaks friendly *service* names directly.

use vstd::prelude::*;

use crate::commands::{
    buildable, push_command, push_string, push_text, request_ip, request_mask, request_mask_text,
    text_or,
};
use crate::types::{ApplyRequest, ApplyRequestView, Mode};

verus! {

/// The command that sets the address: DHCP, or a manual address with its mask
/// and a router, which is the gateway if given and the host's own IP otherwise
/// (no usable default route — correct for isolated AV LANs).
pub open spec fn address_command(r: ApplyRequestView) -> Seq<Seq<char>> {
    match r.mode {
        Mode::Dhcp => seq!["networksetup"@, "-setdhcp"@, r.interface],
        Mode::Static => seq![
            "networksetup"@,
            "-setmanual"@,
            r.interface,
            text_or(r.ip, seq![]),
            request_mask(r),
            text_or(r.gateway, text_or(r.ip, seq![])),
        ],
    }
}

/// The DNS command, if any: the given servers, or `Empty` (back to automatic
/// DNS) when there are none and clearing was asked for.
pub open spec fn dns_commands(r: ApplyRequestView) -> Seq<Seq<Seq<char>>> {
    if r.dns.len() > 0 {
        seq![seq!["networksetup"@, "-setdnsservers"@, r.interface] + r.dns]
    } else if r.dns_clear {
        seq![seq!["networksetup"@, "-setdnsservers"@, r.interface, "Empty"@]]
    } else {
        seq![]
    }
}

/// Address first, then DNS.
pub open spec fn commands(r: ApplyRequestView) -> Seq<Seq<Seq<char>>> {
    seq![address_command(r)] + dns_commands(r)
}

/// The `networksetup` argv vectors that apply `req`.
pub fn build_commands(req: &ApplyRequest) -> (res: Vec<Vec<String>>)
    requires
        buildable(req@),
    ensures
        res.deep_view() == commands(req@),
{
    let mut cmds: Vec<Vec<String>> = Vec::new();
    let mut addr: Vec<String> = Vec::new();
    push_text(&mut addr, "networksetup");
    match req.mode {
        Mode::Dhcp => {
            push_text(&mut addr, "-setdhcp");
            push_string(&mut addr, &req.interface);
        },
        Mode::Static => {
            let ip = request_ip(req);
            let mask = request_mask_text(req);
            let router = match &req.gateway {
                Some(gw) => gw.clone(),
                None => ip.clone(),
            };
            push_text(&mut addr, "-setmanual");
            push_string(&mut addr, &req.interface);
            push_string(&mut addr, &ip);
            push_string(&mut addr, &mask);
            push_string(&mut addr, &router);
        },
    }
    assert(addr.deep_view() =~= address_command(req@));
    push_command(&mut cmds, addr);
    if req.dns.len() > 0 {
        let mut c: Vec<String> = Vec::new();
        push_text(&mut c, "networksetup");
        push_text(&mut c, "-setdnsservers");
        push_string(&mut c, &req.interface);
        let ghost head = c.deep_view();
        let mut i: usize = 0;
        while i < req.dns.len()
            invariant
                i <= req.dns.len(),
                c.deep_view() == head + req@.dns.take(i as int),
            decreases req.dns.len() - i,
        {
            push_string(&mut c, &req.dns[i]);
            assert(head + req@.dns.take(i + 1) =~= (head + req@.dns.take(i as int)).push(
                req@.dns[i as int],
            ));
            i = i + 1;
        }
        assert(req@.dns.take(req.dns.len() as int) =~= req@.dns);
        push_command(&mut cmds, c);
    } else if req.dns_clear {
        let mut c: Vec<String> = Vec::new();
        push_text(&mut c, "networksetup");
        push_text(&mut c, "-setdnsservers");
        push_string(&mut c, &req.interface);
        push_text(&mut c, "Empty");
        push_command(&mut cmds, c);
    }
    assert(cmds.deep_view() =~~= commands(req@));
    cmds
}

} // verus!
