//! The decisions of the privileged helper and of the app's client for it.
//!
//! For each request the helper re-validates the preset against the interfaces
//! that exist right now, builds the argv vectors for its platform, and runs
//! them in order, stopping at the first failure so a half-applied config is
//! never left silently. Receiving, running and replying are the caller's part.

use vstd::prelude::*;

use crate::commands::{build_commands_for, platform_commands, Platform};
use crate::text::{to_chars, trim, trim_bounds};
use crate::types::{opt_text, HelperRequest, HelperResponse};
use crate::validate::{apply_outcome, validate_apply};

verus! {

/// What came of running one command.
#[derive(Debug)]
pub enum StepOutcome {
    /// The command ran and reported success.
    Succeeded,
    /// The command ran and failed, with what it printed.
    Failed { stderr: String, stdout: String },
    /// The command could not be started.
    NotStarted { error: String },
}

/// The words of an argv joined by single spaces (`argv.join(" ")`).
pub open spec fn joined(argv: Seq<Seq<char>>) -> Seq<char>
    decreases argv.len(),
{
    if argv.len() == 0 {
        seq![]
    } else if argv.len() == 1 {
        argv[0]
    } else {
        joined(argv.drop_last()) + " "@ + argv.last()
    }
}

/// The words of `argv` joined by single spaces.
pub fn join_args(argv: &Vec<String>) -> (res: String)
    ensures
        res@ == joined(argv.deep_view()),
{
    let mut out = String::new();
    let mut i: usize = 0;
    while i < argv.len()
        invariant
            i <= argv.len(),
            out@ == joined(argv.deep_view().take(i as int)),
        decreases argv.len() - i,
    {
        assert(argv.deep_view().take(i + 1).drop_last() =~= argv.deep_view().take(i as int));
        assert(argv.deep_view().take(i + 1).last() == argv[i as int]@);
        if i > 0 {
            out.append(" ");
        } else {
            assert(out@ =~= Seq::<char>::empty());
        }
        out.append(argv[i].as_str());
        proof {
            if i == 0 {
                assert(argv.deep_view().take(1).len() == 1);
                assert(out@ =~= joined(argv.deep_view().take(1)));
            }
        }
        i = i + 1;
    }
    assert(argv.deep_view().take(i as int) =~= argv.deep_view());
    out
}

/// The message for a command that ran and failed: its standard error if that
/// holds more than white space, its standard output otherwise, trimmed.
pub open spec fn step_failed_message(argv: Seq<Seq<char>>, stderr: Seq<char>, stdout: Seq<char>) -> Seq<
    char,
> {
    "step `"@ + joined(argv) + "` failed: "@ + trim(
        if trim(stderr).len() > 0 {
            stderr
        } else {
            stdout
        },
    )
}

/// The message for a command that could not be started.
pub open spec fn not_started_message(argv: Seq<Seq<char>>, error: Seq<char>) -> Seq<char> {
    "could not run `"@ + joined(argv) + "`: "@ + error
}

/// `s` with leading and trailing white space removed, as a new `String`.
fn trimmed_string(s: &str) -> (res: String)
    ensures
        res@ == trim(s@),
{
    let v = to_chars(s);
    let (a, b) = trim_bounds(&v, 0, v.len());
    assert(v@.subrange(0, v@.len() as int) =~= v@);
    String::from_str(s.substring_char(a, b))
}

/// The response to give after one step: none while steps succeed, an error
/// naming the step once one fails.
pub fn step_response(argv: &Vec<String>, outcome: &StepOutcome) -> (res: Option<HelperResponse>)
    ensures
        match outcome {
            StepOutcome::Succeeded => res is None,
            StepOutcome::Failed { stderr, stdout } => res matches Some(r) && !r.ok && opt_text(
                r.error,
            ) == Some(step_failed_message(argv.deep_view(), stderr@, stdout@)),
            StepOutcome::NotStarted { error } => res matches Some(r) && !r.ok && opt_text(r.error)
                == Some(not_started_message(argv.deep_view(), error@)),
        },
{
    match outcome {
        StepOutcome::Succeeded => None,
        StepOutcome::Failed { stderr, stdout } => {
            let err_text = trimmed_string(stderr.as_str());
            let detail = if err_text.as_str().is_empty() {
                trimmed_string(stdout.as_str())
            } else {
                err_text
            };
            let mut msg = String::from_str("step `");
            let joined_args = join_args(argv);
            msg.append(joined_args.as_str());
            msg.append("` failed: ");
            msg.append(detail.as_str());
            Some(HelperResponse::err(msg))
        },
        StepOutcome::NotStarted { error } => {
            let mut msg = String::from_str("could not run `");
            let joined_args = join_args(argv);
            msg.append(joined_args.as_str());
            msg.append("`: ");
            msg.append(error.as_str());
            Some(HelperResponse::err(msg))
        },
    }
}

/// The response to a request line that is not a request.
pub fn bad_request(detail: &str) -> (res: HelperResponse)
    ensures
        !res.ok,
        opt_text(res.error) == Some("bad request: "@ + detail@),
{
    let mut msg = String::from_str("bad request: ");
    msg.append(detail);
    HelperResponse::err(msg)
}

/// What the helper does with a request: the commands to run, or the message
/// of the error it answers with.
pub open spec fn plan_outcome(
    req: HelperRequest,
    live: Seq<Seq<char>>,
    platform: Platform,
) -> Result<Seq<Seq<Seq<char>>>, Seq<char>> {
    match apply_outcome(req.preset@, req.interface@, live) {
        Err(msg) => Err(msg),
        Ok(r) => if platform_commands(platform, r).len() == 0 {
            Err("no command for this platform"@)
        } else {
            Ok(platform_commands(platform, r))
        },
    }
}

/// Re-validates a request against the interfaces live right now and builds
/// the commands that apply it, or the error response.
pub fn plan_request(req: &HelperRequest, live: &[String], platform: Platform) -> (res: Result<
    Vec<Vec<String>>,
    HelperResponse,
>)
    ensures
        match res {
            Ok(cmds) => plan_outcome(*req, live.deep_view(), platform) == Ok::<
                Seq<Seq<Seq<char>>>,
                Seq<char>,
            >(cmds.deep_view()),
            Err(r) => !r.ok && (plan_outcome(*req, live.deep_view(), platform) matches Err(msg)
                && opt_text(r.error) == Some(msg)),
        },
{
    let apply = match validate_apply(&req.preset, req.interface.as_str(), live) {
        Ok(a) => a,
        Err(e) => {
            return Err(HelperResponse::err(e.to_string()));
        },
    };
    let cmds = build_commands_for(platform, &apply);
    if cmds.len() == 0 {
        return Err(HelperResponse::err(String::from_str("no command for this platform")));
    }
    Ok(cmds)
}

/// What the app reports for the helper's response: success, or its error
/// (a generic message when it gave none).
pub fn response_result(resp: HelperResponse) -> (res: Result<(), String>)
    ensures
        resp.ok ==> res is Ok,
        !resp.ok ==> (res matches Err(m) && m@ == (match opt_text(resp.error) {
            Some(e) => e,
            None => "unknown helper error"@,
        })),
{
    if resp.ok {
        Ok(())
    } else {
        match resp.error {
            Some(e) => Err(e),
            None => Err(String::from_str("unknown helper error")),
        }
    }
}

} // verus!
