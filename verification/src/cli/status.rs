//! What `status` reports about a session and the clients attached to it.

use vstd::prelude::*;

use crate::text::{decimal, push_decimal, text_of};

verus! {

/// How long a session has been up, at the coarsest two units that matter.
pub open spec fn duration_text(seconds: nat) -> Seq<char> {
    let hours = seconds / 3600;
    let minutes = (seconds % 3600) / 60;
    let secs = seconds % 60;
    if hours > 0 {
        decimal(hours) + "h "@ + decimal(minutes) + "m"@
    } else if minutes > 0 {
        decimal(minutes) + "m "@ + decimal(secs) + "s"@
    } else {
        decimal(secs) + "s"@
    }
}

/// Where a client is, as the status report names it. An unpublished place
/// reports 0, which is worth spelling out because it is also the reason
/// strict matching cannot apply.
pub open spec fn place_text(place_id: Option<u64>) -> Seq<char> {
    match place_id {
        Some(0) => "unpublished place"@,
        Some(id) => "place "@ + decimal(id as nat),
        None => "unknown place"@,
    }
}

/// How a client came to be connected.
pub open spec fn connection_text(auto_connected: bool, match_reason: Option<Seq<char>>) -> Seq<char> {
    if auto_connected {
        match match_reason {
            Some(reason) => "auto-connected via "@ + reason,
            None => "auto-connected"@,
        }
    } else {
        "connected manually"@
    }
}

/// A count of clients, with the noun in the right number.
pub open spec fn clients_text(count: nat) -> Seq<char> {
    decimal(count) + (if count == 1 {
        " client"@
    } else {
        " clients"@
    })
}

/// The refusal when a caller demanded a connected Studio and none is.
pub open spec fn missing_studio_text(project_name: Seq<char>) -> Seq<char> {
    "No Studio client is connected to '"@ + project_name
        + "'. Open the place in Studio, or run `roxo wait --for studio` to block until it connects."@
}

/// Renders a number of seconds as `9s`, `1m 15s` or `1h 1m`.
pub fn format_duration(seconds: u64) -> (r: String)
    ensures
        r@ == duration_text(seconds as nat),
{
    let hours = seconds / 3600;
    let minutes = (seconds % 3600) / 60;
    let secs = seconds % 60;
    let mut out = String::new();
    if hours > 0 {
        push_decimal(&mut out, hours);
        out.append("h ");
        push_decimal(&mut out, minutes);
        out.append("m");
    } else if minutes > 0 {
        push_decimal(&mut out, minutes);
        out.append("m ");
        push_decimal(&mut out, secs);
        out.append("s");
    } else {
        push_decimal(&mut out, secs);
        out.append("s");
    }
    out
}

/// Names the place a client is editing.
pub fn place_label(place_id: Option<u64>) -> (r: String)
    ensures
        r@ == place_text(place_id),
{
    match place_id {
        Some(0) => text_of("unpublished place"),
        Some(id) => {
            let mut out = text_of("place ");
            push_decimal(&mut out, id);
            out
        },
        None => text_of("unknown place"),
    }
}

/// Says how a client came to be connected, naming the matching rule when an
/// unattended connection recorded one.
pub fn connection_label(auto_connected: bool, match_reason: &Option<String>) -> (r: String)
    ensures
        r@ == connection_text(
            auto_connected,
            match match_reason {
                Some(reason) => Some(reason@),
                None => None,
            },
        ),
{
    if auto_connected {
        match match_reason {
            Some(reason) => {
                let mut out = text_of("auto-connected via ");
                out.append(reason.as_str());
                out
            },
            None => text_of("auto-connected"),
        }
    } else {
        text_of("connected manually")
    }
}

/// `1 client`, `2 clients`.
pub fn clients_label(count: u64) -> (r: String)
    ensures
        r@ == clients_text(count as nat),
{
    let mut out = String::new();
    push_decimal(&mut out, count);
    if count == 1 {
        out.append(" client");
    } else {
        out.append(" clients");
    }
    out
}

/// One client's line in the report: a star for a live subscription, then
/// its name, its place and how it connected.
pub open spec fn client_line_text(
    subscribed: bool,
    client_name: Seq<char>,
    place_id: Option<u64>,
    auto_connected: bool,
    match_reason: Option<Seq<char>>,
) -> Seq<char> {
    "  "@ + (if subscribed {
        "*"@
    } else {
        "-"@
    }) + " "@ + client_name + " - "@ + place_text(place_id) + ", "@ + connection_text(
        auto_connected,
        match_reason,
    )
}

/// The line the report gives one attached client.
pub fn client_line(
    subscribed: bool,
    client_name: &str,
    place_id: Option<u64>,
    auto_connected: bool,
    match_reason: &Option<String>,
) -> (r: String)
    ensures
        r@ == client_line_text(
            subscribed,
            client_name@,
            place_id,
            auto_connected,
            match match_reason {
                Some(reason) => Some(reason@),
                None => None,
            },
        ),
{
    let mut out = text_of("  ");
    if subscribed {
        out.append("*");
    } else {
        out.append("-");
    }
    out.append(" ");
    out.append(client_name);
    out.append(" - ");
    out.append(place_label(place_id).as_str());
    out.append(", ");
    out.append(connection_label(auto_connected, match_reason).as_str());
    out
}

/// What `status` was asked to do.
pub struct StatusCommand {
    /// The port of the session to inspect. Only needed when more than one
    /// session is running.
    pub port: Option<u16>,
    /// Inspect the session serving this project path.
    pub project: Option<String>,
    /// Print the full status as JSON.
    pub json: bool,
    /// Fail when no Studio client is connected, so that a script can branch on
    /// it without parsing output.
    pub require_studio: bool,
}

impl StatusCommand {
    /// Whether the report must end in failure: Studio was required and is
    /// not connected.
    pub fn studio_requirement_failed(&self, studio_connected: bool) -> (r: bool)
        ensures
            r == (self.require_studio && !studio_connected),
    {
        self.require_studio && !studio_connected
    }

    /// The error a failed Studio requirement reports.
    pub fn missing_studio_message(project_name: &str) -> (r: String)
        ensures
            r@ == missing_studio_text(project_name@),
    {
        let mut out = text_of("No Studio client is connected to '");
        out.append(project_name);
        out.append(
            "'. Open the place in Studio, or run `roxo wait --for studio` to block until it connects.",
        );
        out
    }
}

/// A rendered duration reads back as the number it came from: with
/// `seconds` split into whole hours, minutes under 60 and seconds under 60,
/// the text shows hours and minutes when there is an hour, minutes and
/// seconds when there is a minute, and seconds alone otherwise.
pub proof fn lemma_duration_reads_back(seconds: nat, h: nat, m: nat, s: nat)
    requires
        m < 60,
        s < 60,
        3600 * h + 60 * m + s == seconds,
    ensures
        h > 0 ==> duration_text(seconds) == decimal(h) + "h "@ + decimal(m) + "m"@,
        h == 0 && m > 0 ==> duration_text(seconds) == decimal(m) + "m "@ + decimal(s) + "s"@,
        h == 0 && m == 0 ==> duration_text(seconds) == decimal(s) + "s"@,
{
    assert(seconds / 3600 == h) by (nonlinear_arith)
        requires
            m < 60,
            s < 60,
            3600 * h + 60 * m + s == seconds,
    ;
    assert(seconds % 3600 == 60 * m + s) by (nonlinear_arith)
        requires
            m < 60,
            s < 60,
            3600 * h + 60 * m + s == seconds,
    ;
    assert((60 * m + s) / 60 == m) by (nonlinear_arith)
        requires
            s < 60,
    ;
    assert(seconds % 60 == s) by (nonlinear_arith)
        requires
            s < 60,
            3600 * h + 60 * m + s == seconds,
    ;
}

} // verus!
