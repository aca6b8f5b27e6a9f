//! Other targets have no native tool: the single command is a no-op.

use vstd::prelude::*;

use crate::commands::{push_command, push_text};
use crate::types::ApplyRequest;

verus! {

/// The commands for a target without a supported tool: `true`.
pub open spec fn commands() -> Seq<Seq<Seq<char>>> {
    seq![seq!["true"@]]
}

/// Fallback so the crate is usable on other targets (e.g. CI on Linux).
pub fn build_commands(_req: &ApplyRequest) -> (res: Vec<Vec<String>>)
    ensures
        res.deep_view() == commands(),
{
    let mut c: Vec<String> = Vec::new();
    push_text(&mut c, "true");
    let mut cmds: Vec<Vec<String>> = Vec::new();
    push_command(&mut cmds, c);
    assert(cmds.deep_view() =~~= commands());
    cmds
}

} // verus!
