//! Turns a *validated* `ApplyRequest` into a sequence of explicit argv vectors
//! for the native OS tools. We return `Vec<Vec<String>>` (never a shell string)
//! so the helper spawns each step with `argv[0]` as the program and the rest as
//! its arguments — the OS never re-parses our values, so there's no
//! command-injection surface.
//!
//! A static config can need more than one command: set the address, then set
//! DNS servers if any were provided. Each platform's builder stands in a module
//! of its own; `Platform` names the one to use.

pub mod fallback;
pub mod macos;
pub mod windows;

use vstd::prelude::*;

use crate::ipv4::{ipv4_text, mask_octets};
use crate::types::{ApplyRequest, ApplyRequestView, Mode};

verus! {

/// The operating system whose network tools the commands are for.
#[derive(Debug, Clone, Copy, PartialEq, Eq, Structural)]
pub enum Platform {
    MacOs,
    Windows,
    Other,
}

/// An optional text, or `default` when it is absent.
pub open spec fn text_or(o: Option<Seq<char>>, default: Seq<char>) -> Seq<char> {
    match o {
        Some(s) => s,
        None => default,
    }
}

/// The prefix of a request, 24 when it has none.
pub open spec fn prefix_or_default(p: Option<u8>) -> int {
    match p {
        Some(x) => x as int,
        None => 24,
    }
}

/// The dotted mask that a static request is applied with.
pub open spec fn request_mask(r: ApplyRequestView) -> Seq<char> {
    ipv4_text(mask_octets(prefix_or_default(r.prefix)))
}

/// The builders can turn `r` into commands: a static request needs a prefix of
/// at most 32 (or none, which means 24).
pub open spec fn buildable(r: ApplyRequestView) -> bool {
    r.mode == Mode::Static ==> prefix_or_default(r.prefix) <= 32
}

/// The commands that `build_commands_for` gives for `platform`.
pub open spec fn platform_commands(platform: Platform, r: ApplyRequestView) -> Seq<
    Seq<Seq<char>>,
> {
    match platform {
        Platform::MacOs => macos::commands(r),
        Platform::Windows => windows::commands(r),
        Platform::Other => fallback::commands(),
    }
}

/// The argv vectors that apply `req` on `platform`.
pub fn build_commands_for(platform: Platform, req: &ApplyRequest) -> (res: Vec<Vec<String>>)
    requires
        buildable(req@),
    ensures
        res.deep_view() == platform_commands(platform, req@),
{
    match platform {
        Platform::MacOs => macos::build_commands(req),
        Platform::Windows => windows::build_commands(req),
        Platform::Other => fallback::build_commands(req),
    }
}

/// Appends a copy of the text `t` to `out`.
pub fn push_text(out: &mut Vec<String>, t: &str)
    ensures
        final(out).deep_view() == old(out).deep_view().push(t@),
{
    out.push(String::from_str(t));
    assert(final(out).deep_view() =~= old(out).deep_view().push(t@));
}

/// Appends a copy of the text `t` to `out`.
pub fn push_string(out: &mut Vec<String>, t: &String)
    ensures
        final(out).deep_view() == old(out).deep_view().push(t@),
{
    out.push(t.clone());
    assert(final(out).deep_view() =~= old(out).deep_view().push(t@));
}

/// Appends the command `c` to `cmds`.
pub fn push_command(cmds: &mut Vec<Vec<String>>, c: Vec<String>)
    ensures
        final(cmds).deep_view() == old(cmds).deep_view().push(c.deep_view()),
{
    let ghost cv = c.deep_view();
    cmds.push(c);
    assert(final(cmds).deep_view() =~= old(cmds).deep_view().push(cv));
}

/// The IP address of a request, or the empty text when it has none.
pub fn request_ip(req: &ApplyRequest) -> (res: String)
    ensures
        res@ == text_or(req@.ip, seq![]),
{
    match &req.ip {
        Some(ip) => ip.clone(),
        None => String::new(),
    }
}

/// The dotted mask a static request is applied with.
pub fn request_mask_text(req: &ApplyRequest) -> (res: String)
    requires
        buildable(req@),
        req@.mode == Mode::Static,
    ensures
        res@ == request_mask(req@),
{
    let p = match req.prefix {
        Some(p) => p,
        None => 24,
    };
    crate::validate::prefix_to_mask(p)
}

} // verus!
