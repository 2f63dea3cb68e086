//! Waiting until a serve session is ready.
//!
//! Starting a server and syncing to Studio are separate events; an agent that
//! treats them as one writes files into a session nothing is listening to.
//! The polling itself (fetching, sleeping, the clock) is done by the caller;
//! what each poll means is decided here.

use vstd::prelude::*;

use crate::cli::status::{clients_label, clients_text};
use crate::text::{ascii_lower_text, ascii_lowercase, decimal, push_decimal, text_eq, text_of};

verus! {

/// What a caller is waiting for.
#[derive(Debug, Clone, Copy, PartialEq, Eq)]
pub enum WaitCondition {
    /// A serve session exists at all.
    Server,
    /// A Studio client holds a live subscription to it.
    Studio,
}

/// What to do after one poll.
#[derive(Debug, Clone, Copy, PartialEq, Eq)]
pub enum WaitStep {
    /// The condition holds: report and stop.
    Ready,
    /// Not yet, and time remains: sleep and poll again.
    Retry,
    /// Not yet, and the deadline has passed: give up.
    GiveUp,
}

/// The condition a command-line value names, ignoring ASCII case.
pub open spec fn condition_from_command_line(s: Seq<char>) -> Option<WaitCondition> {
    let l = ascii_lower_text(s);
    if l == "server"@ {
        Some(WaitCondition::Server)
    } else if l == "studio"@ || l == "client"@ {
        Some(WaitCondition::Studio)
    } else {
        None
    }
}

/// The message for a command-line value that names no condition.
pub open spec fn invalid_condition_text(s: Seq<char>) -> Seq<char> {
    "Invalid wait condition '"@ + ascii_lower_text(s) + "'. Valid values are: server, studio"@
}

/// Whether a session whose Studio connection is as given satisfies the
/// condition. A running session is all `Server` asks for.
pub open spec fn is_satisfied(condition: WaitCondition, studio_connected: bool) -> bool {
    match condition {
        WaitCondition::Server => true,
        WaitCondition::Studio => studio_connected,
    }
}

/// The decision after one poll. `status` is the Studio connection of the
/// session when the poll reached one, and `None` when it failed: a missing
/// session is an expected intermediate state, not a failure.
pub open spec fn next_step(condition: WaitCondition, status: Option<bool>, deadline_passed: bool) -> WaitStep {
    match status {
        Some(connected) if is_satisfied(condition, connected) => WaitStep::Ready,
        _ => if deadline_passed {
            WaitStep::GiveUp
        } else {
            WaitStep::Retry
        },
    }
}

/// What is printed once the condition holds.
pub open spec fn ready_text(
    condition: WaitCondition,
    project_name: Seq<char>,
    project_path: Seq<char>,
    client_count: nat,
) -> Seq<char> {
    match condition {
        WaitCondition::Server => "Server ready: '"@ + project_name + "' on "@ + project_path,
        WaitCondition::Studio => "Studio connected to '"@ + project_name + "' ("@ + clients_text(
            client_count,
        ) + ")"@,
    }
}

/// The last failure, if any, as the timeout message appends it.
pub open spec fn last_attempt_text(last_error: Option<Seq<char>>) -> Seq<char> {
    match last_error {
        Some(e) => "\nLast attempt: "@ + e,
        None => Seq::empty(),
    }
}

/// The error reported when the deadline passes.
pub open spec fn timeout_text(condition: WaitCondition, timeout: nat, last_error: Option<Seq<char>>) -> Seq<char> {
    match condition {
        WaitCondition::Server => "Timed out after "@ + decimal(timeout)
            + "s waiting for a Roxo serve session."@ + last_attempt_text(last_error),
        WaitCondition::Studio => "Timed out after "@ + decimal(timeout)
            + "s waiting for Studio to connect.\nCheck that the place is open in Studio, that the Roxo plugin is installed, and that auto-connect is not set to 'off' for this project."@
            + last_attempt_text(last_error),
    }
}

impl WaitCondition {
    /// Parses a command-line value, ignoring ASCII case.
    pub fn from_command_line(source: &str) -> (r: Result<WaitCondition, String>)
        ensures
            r is Ok <==> condition_from_command_line(source@) is Some,
            r matches Ok(c) ==> condition_from_command_line(source@) == Some(c),
            r matches Err(message) ==> message@ == invalid_condition_text(source@),
    {
        let lowered = ascii_lowercase(source);
        let l = lowered.as_str();
        if text_eq(l, "server") {
            Ok(WaitCondition::Server)
        } else if text_eq(l, "studio") || text_eq(l, "client") {
            Ok(WaitCondition::Studio)
        } else {
            let mut message = text_of("Invalid wait condition '");
            message.append(l);
            message.append("'. Valid values are: server, studio");
            Err(message)
        }
    }
}

impl std::str::FromStr for WaitCondition {
    type Err = String;

    fn from_str(source: &str) -> (r: Result<WaitCondition, String>)
        ensures
            r is Ok <==> condition_from_command_line(source@) is Some,
            r matches Ok(c) ==> condition_from_command_line(source@) == Some(c),
            r matches Err(message) ==> message@ == invalid_condition_text(source@),
    {
        WaitCondition::from_command_line(source)
    }
}

/// What `wait` was asked to do.
pub struct WaitCommand {
    /// What to wait for.
    pub condition: WaitCondition,
    /// The port of the session to wait on.
    pub port: Option<u16>,
    /// Wait on the session serving this project path.
    pub project: Option<String>,
    /// Give up after this many seconds.
    pub timeout: u64,
    /// Print the status as JSON once the condition is met.
    pub json: bool,
}

fn append_last_attempt(out: &mut String, last_error: Option<&str>)
    ensures
        final(out)@ == old(out)@ + last_attempt_text(
            match last_error {
                Some(e) => Some(e@),
                None => None,
            },
        ),
{
    match last_error {
        Some(e) => {
            out.append("\nLast attempt: ");
            out.append(e);
        },
        None => {
            assert(old(out)@ + Seq::<char>::empty() =~= old(out)@);
        },
    }
}

impl WaitCommand {
    /// Decides what follows one poll of the session.
    pub fn step(&self, status: Option<bool>, deadline_passed: bool) -> (r: WaitStep)
        ensures
            r == next_step(self.condition, status, deadline_passed),
    {
        let satisfied = match status {
            Some(connected) => match self.condition {
                WaitCondition::Server => true,
                WaitCondition::Studio => connected,
            },
            None => false,
        };
        if satisfied {
            WaitStep::Ready
        } else if deadline_passed {
            WaitStep::GiveUp
        } else {
            WaitStep::Retry
        }
    }

    /// The line printed once the condition holds.
    pub fn ready_message(&self, project_name: &str, project_path: &str, client_count: u64) -> (r:
        String)
        ensures
            r@ == ready_text(self.condition, project_name@, project_path@, client_count as nat),
    {
        match self.condition {
            WaitCondition::Server => {
                let mut out = text_of("Server ready: '");
                out.append(project_name);
                out.append("' on ");
                out.append(project_path);
                out
            },
            WaitCondition::Studio => {
                let mut out = text_of("Studio connected to '");
                out.append(project_name);
                out.append("' (");
                let count = clients_label(client_count);
                out.append(count.as_str());
                out.append(")");
                out
            },
        }
    }

    /// The error reported when the deadline passes, naming the last failure
    /// when there was one.
    pub fn timeout_message(&self, last_error: Option<&str>) -> (r: String)
        ensures
            r@ == timeout_text(
                self.condition,
                self.timeout as nat,
                match last_error {
                    Some(e) => Some(e@),
                    None => None,
                },
            ),
    {
        let mut out = text_of("Timed out after ");
        push_decimal(&mut out, self.timeout);
        match self.condition {
            WaitCondition::Server => {
                out.append("s waiting for a Roxo serve session.");
            },
            WaitCondition::Studio => {
                out.append(
                    "s waiting for Studio to connect.\nCheck that the place is open in Studio, that the Roxo plugin is installed, and that auto-connect is not set to 'off' for this project.",
                );
            },
        }
        append_last_attempt(&mut out, last_error);
        out
    }
}

/// A wait never ends early without cause: it reports ready only on a
/// successful poll that satisfies the condition, and gives up only once the
/// deadline has passed.
pub proof fn lemma_wait_ends_only_for_cause(condition: WaitCondition, status: Option<bool>, deadline_passed: bool)
    ensures
        next_step(condition, status, deadline_passed) == WaitStep::Ready <==> (status matches Some(c)
            && is_satisfied(condition, c)),
        next_step(condition, status, deadline_passed) == WaitStep::GiveUp ==> deadline_passed,
        next_step(condition, status, deadline_passed) == WaitStep::Retry ==> !deadline_passed,
{
}

/// Waiting for a server is satisfied by any session that answers; waiting
/// for Studio needs a connected one.
pub proof fn lemma_studio_wait_needs_connection(status: Option<bool>, deadline_passed: bool)
    ensures
        status is Some ==> next_step(WaitCondition::Server, status, deadline_passed) == WaitStep::Ready,
        next_step(WaitCondition::Studio, status, deadline_passed) == WaitStep::Ready <==> status == Some(
            true,
        ),
{
}

} // verus!
