//! What `serve` tells the operator about the session it started.

use vstd::prelude::*;

use crate::auto_connect::AutoConnectPolicy;
use crate::cli::mcp::{push_text, texts};
use crate::text::{decimal, push_decimal, text_of};

verus! {

/// How a policy reads in the start message.
pub open spec fn description_of(policy: AutoConnectPolicy) -> Seq<char> {
    match policy {
        AutoConnectPolicy::Off => "manual (press Connect in Studio)"@,
        AutoConnectPolicy::Matching => "automatic for places this project matches"@,
        AutoConnectPolicy::Always => "automatic from any place"@,
    }
}

/// Describes an auto-connect policy for the start message.
pub fn auto_connect_description(policy: AutoConnectPolicy) -> (r: &'static str)
    ensures
        r@ == description_of(policy),
{
    match policy {
        AutoConnectPolicy::Off => "manual (press Connect in Studio)",
        AutoConnectPolicy::Matching => "automatic for places this project matches",
        AutoConnectPolicy::Always => "automatic from any place",
    }
}

/// The address the start message shows: `localhost` for a loopback address,
/// the address itself otherwise.
pub open spec fn shown_address(bind_address: Seq<char>, is_loopback: bool) -> Seq<char> {
    if is_loopback {
        "localhost"@
    } else {
        bind_address
    }
}

/// The lines `serve` prints once it listens: where, on which port, how
/// Studio connects, a warning when the address is reachable from the network
/// (the serve API is unauthenticated), and where to read more.
pub open spec fn start_message_text(
    bind_address: Seq<char>,
    is_loopback: bool,
    port: nat,
    policy: AutoConnectPolicy,
) -> Seq<Seq<char>> {
    let a = shown_address(bind_address, is_loopback);
    let p = decimal(port);
    seq![
        "Roxo server listening:"@,
        "  Address: "@ + a,
        "  Port:    "@ + p,
        "  Connect: "@ + description_of(policy),
        ""@,
    ] + (if is_loopback {
        Seq::empty()
    } else {
        seq![
            "WARNING: This server is bound to "@ + a + ", which is reachable from the network."@,
            "The serve API is unauthenticated, so anyone who can reach "@ + a + ":"@ + p
                + " can read"@,
            "and modify your project's source. Prefer binding to localhost and tunneling (e.g. SSH,"@,
            "Tailscale, or WireGuard) when you need remote access."@,
            ""@,
        ]
    }) + seq!["Visit http://"@ + a + ":"@ + p + "/ in your browser for more information."@]
}

/// The start message of `serve`, line by line; the caller highlights the
/// values and colours the warning.
pub fn start_message_lines(
    bind_address: &str,
    is_loopback: bool,
    port: u16,
    policy: AutoConnectPolicy,
) -> (r: Vec<String>)
    ensures
        texts(r@) == start_message_text(bind_address@, is_loopback, port as nat, policy),
{
    let address = if is_loopback {
        text_of("localhost")
    } else {
        text_of(bind_address)
    };
    let mut number = String::new();
    push_decimal(&mut number, port as u64);
    let mut lines: Vec<String> = Vec::new();
    push_text(&mut lines, text_of("Roxo server listening:"));
    let mut line = text_of("  Address: ");
    line.append(address.as_str());
    push_text(&mut lines, line);
    let mut line = text_of("  Port:    ");
    line.append(number.as_str());
    push_text(&mut lines, line);
    let mut line = text_of("  Connect: ");
    line.append(auto_connect_description(policy));
    push_text(&mut lines, line);
    push_text(&mut lines, text_of(""));
    if !is_loopback {
        let mut line = text_of("WARNING: This server is bound to ");
        line.append(address.as_str());
        line.append(", which is reachable from the network.");
        push_text(&mut lines, line);
        let mut line = text_of("The serve API is unauthenticated, so anyone who can reach ");
        line.append(address.as_str());
        line.append(":");
        line.append(number.as_str());
        line.append(" can read");
        push_text(&mut lines, line);
        push_text(
            &mut lines,
            text_of(
                "and modify your project's source. Prefer binding to localhost and tunneling (e.g. SSH,",
            ),
        );
        push_text(&mut lines, text_of("Tailscale, or WireGuard) when you need remote access."));
        push_text(&mut lines, text_of(""));
    }
    let mut line = text_of("Visit http://");
    line.append(address.as_str());
    line.append(":");
    line.append(number.as_str());
    line.append("/ in your browser for more information.");
    push_text(&mut lines, line);
    proof {
        let a = shown_address(bind_address@, is_loopback);
        let t = texts(lines@);
        let spec = start_message_text(bind_address@, is_loopback, port as nat, policy);
        assert(address@ == a);
        assert(number@ == decimal(port as nat));
        assert(t.len() == spec.len());
        assert forall|i: int| 0 <= i < t.len() implies t[i] == spec[i] by {
        }
        assert(t =~= spec);
    }
    lines
}

/// The port a session listens on when neither the command line nor the
/// project names one.
pub open spec fn default_port() -> u16 {
    34872
}

/// The port a session listens on: the command line's, else the project's
/// preference, else the default.
pub open spec fn chosen_port(flag: Option<u16>, project: Option<u16>) -> u16 {
    match flag {
        Some(p) => p,
        None => match project {
            Some(p) => p,
            None => default_port(),
        },
    }
}

/// Picks the port a session listens on.
pub fn serve_port(flag: Option<u16>, project: Option<u16>) -> (r: u16)
    ensures
        r == chosen_port(flag, project),
{
    match flag {
        Some(p) => p,
        None => match project {
            Some(p) => p,
            None => 34872,
        },
    }
}

/// Picks the extra `Host`/`Origin` values a session accepts. The command-line
/// list, when given, replaces the project's list rather than merging with it,
/// matching how the address and port flags override theirs.
pub fn serve_allowed_hosts(flag: Vec<String>, project: Vec<String>) -> (r: Vec<String>)
    ensures
        r@ == if flag@.len() == 0 {
            project@
        } else {
            flag@
        },
{
    if flag.len() == 0 {
        project
    } else {
        flag
    }
}

/// A port named on the command line always wins; without one the project's
/// preference is used, and without either the session listens on 34872.
pub proof fn lemma_command_line_port_wins(flag: Option<u16>, project: Option<u16>)
    ensures
        flag matches Some(p) ==> chosen_port(flag, project) == p,
        flag is None ==> (project matches Some(q) ==> chosen_port(flag, project) == q),
        flag is None && project is None ==> chosen_port(flag, project) == 34872,
{
}

/// The start message names the address a browser can reach (`localhost`
/// for a loopback address), the port in decimal, and warns exactly when the
/// address is reachable from the network.
pub proof fn lemma_start_message_warns_only_off_loopback(
    bind_address: Seq<char>,
    is_loopback: bool,
    port: nat,
    policy: AutoConnectPolicy,
)
    ensures
        ({
            let m = start_message_text(bind_address, is_loopback, port, policy);
            let a = if is_loopback { "localhost"@ } else { bind_address };
            &&& m.len() == if is_loopback { 6int } else { 11 }
            &&& m[1] == "  Address: "@ + a
            &&& m[2] == "  Port:    "@ + decimal(port)
            &&& m[m.len() - 1] == "Visit http://"@ + a + ":"@ + decimal(port)
                + "/ in your browser for more information."@
            &&& !is_loopback ==> m[5] == "WARNING: This server is bound to "@ + bind_address
                + ", which is reachable from the network."@
        }),
{
}

} // verus!
