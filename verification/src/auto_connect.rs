//! Identity and policy used by auto-connect.
//!
//! The Studio plugin may connect on its own, but only when the server can
//! prove it belongs to the place that is asking. This module defines that
//! proof's parts: a stable project identity, and the policy that says how
//! strong a match has to be before a connection happens without a human.

use vstd::prelude::*;

use crate::text::{
    ascii_lower,
    ascii_lower_text,
    ascii_lowercase,
    lemma_ascii_lower_idempotent,
    push_char,
    text_eq,
    text_of,
};

verus! {

/// How willing a serve session is to be connected to without human
/// confirmation.
///
/// The default is deliberately not `Always`: letting any place attach to any
/// server would make it trivial to sync a project into the wrong place.
#[derive(Debug, Clone, Copy, PartialEq, Eq)]
pub enum AutoConnectPolicy {
    /// Never auto-connect. A human must press Connect every time.
    Off,
    /// Auto-connect only when the place proves it belongs to this project,
    /// either because the project lists the place in `servePlaceIds`, because
    /// `gameId` matches, or because this place was previously paired with this
    /// project by a human.
    Matching,
    /// Auto-connect from any place. This exists for unpublished places, which
    /// report a `PlaceId` of 0 and therefore have no identity to match against.
    Always,
}

/// The canonical name of a policy.
pub open spec fn policy_name(p: AutoConnectPolicy) -> Seq<char> {
    match p {
        AutoConnectPolicy::Off => "off"@,
        AutoConnectPolicy::Matching => "matching"@,
        AutoConnectPolicy::Always => "always"@,
    }
}

/// The policy a command-line value names, compared without regard to ASCII
/// case. Booleans spelled out are accepted as well.
pub open spec fn policy_from_command_line(s: Seq<char>) -> Option<AutoConnectPolicy> {
    let l = ascii_lower_text(s);
    if l == "off"@ || l == "never"@ || l == "false"@ {
        Some(AutoConnectPolicy::Off)
    } else if l == "matching"@ || l == "match"@ || l == "true"@ {
        Some(AutoConnectPolicy::Matching)
    } else if l == "always"@ {
        Some(AutoConnectPolicy::Always)
    } else {
        None
    }
}

/// The policy a project file's string value names, compared without regard
/// to ASCII case. Booleans are written as JSON booleans there, not as names.
pub open spec fn policy_from_project_name(s: Seq<char>) -> Option<AutoConnectPolicy> {
    let l = ascii_lower_text(s);
    if l == "off"@ || l == "never"@ {
        Some(AutoConnectPolicy::Off)
    } else if l == "matching"@ || l == "match"@ {
        Some(AutoConnectPolicy::Matching)
    } else if l == "always"@ {
        Some(AutoConnectPolicy::Always)
    } else {
        None
    }
}

/// The policy a project file's boolean value stands for.
pub open spec fn policy_from_bool(b: bool) -> AutoConnectPolicy {
    if b {
        AutoConnectPolicy::Matching
    } else {
        AutoConnectPolicy::Off
    }
}

/// The message for a command-line value that names no policy.
pub open spec fn invalid_command_line_message(s: Seq<char>) -> Seq<char> {
    "Invalid auto-connect policy '"@ + ascii_lower_text(s)
        + "'. Valid values are: off, matching, always"@
}

/// The message for a project-file value that names no policy.
pub open spec fn invalid_project_message(s: Seq<char>) -> Seq<char> {
    "invalid autoConnect value '"@ + ascii_lower_text(s)
        + "'. Valid values are 'off', 'matching', 'always', true, or false"@
}

/// The lower-case hexadecimal digit of a nibble.
pub open spec fn hex_digit(d: nat) -> char {
    seq!['0', '1', '2', '3', '4', '5', '6', '7', '8', '9', 'a', 'b', 'c', 'd', 'e', 'f'][d as int]
}

/// Lower-case hexadecimal encoding, two digits per byte, high nibble first.
pub open spec fn hex_lower(bytes: Seq<u8>) -> Seq<char>
    decreases bytes.len(),
{
    if bytes.len() == 0 {
        Seq::empty()
    } else {
        let b = bytes.last();
        hex_lower(bytes.drop_last()) + seq![hex_digit((b / 16) as nat), hex_digit((b % 16) as nat)]
    }
}

/// The BLAKE3 hash of a byte string, as computed by the `blake3` crate.
pub uninterp spec fn blake3_hash(data: Seq<u8>) -> Seq<u8>;

/// The project identity derived from a canonical project path: `roxo-` and
/// the first 16 lower-case hex digits (the first 8 bytes) of the BLAKE3 hash
/// of the path's UTF-8 bytes.
pub open spec fn project_id_for(path_bytes: Seq<u8>) -> Seq<char> {
    "roxo-"@ + hex_lower(blake3_hash(path_bytes).subrange(0, 8))
}

/// `blake3::hash` over `data`, its 32-byte digest copied out. The digest is
/// named by `blake3_hash`, a function of the input bytes alone; its length is
/// the crate's `OUT_LEN`, 32.
#[verifier::external_body]
fn blake3_digest(data: &[u8]) -> (r: Vec<u8>)
    ensures
        r@ == blake3_hash(data@),
        r@.len() == 32,
{
    blake3::hash(data).as_bytes().to_vec()
}

fn hex_char(d: u8) -> (c: char)
    requires
        d < 16,
    ensures
        c == hex_digit(d as nat),
{
    match d {
        0 => '0',
        1 => '1',
        2 => '2',
        3 => '3',
        4 => '4',
        5 => '5',
        6 => '6',
        7 => '7',
        8 => '8',
        9 => '9',
        10 => 'a',
        11 => 'b',
        12 => 'c',
        13 => 'd',
        14 => 'e',
        _ => 'f',
    }
}

/// Derives a stable identifier for a project that has no explicit
/// `projectId`, from the canonical path of its project file.
///
/// The identifier survives server restarts, so a place paired today still
/// recognizes the same project tomorrow. It is intentionally not stable across
/// machines: pairing is a local trust decision.
pub fn derive_project_id(canonical_path: &str) -> (r: String)
    ensures
        r@ == project_id_for(vstd::utf8::encode_utf8(canonical_path@)),
{
    let digest = blake3_digest(canonical_path.as_bytes());
    let mut out = text_of("roxo-");
    let ghost prefix = out@;
    let mut i: usize = 0;
    while i < 8
        invariant
            0 <= i <= 8,
            digest@.len() == 32,
            out@ == prefix + hex_lower(digest@.subrange(0, i as int)),
        decreases 8 - i,
    {
        let b = digest[i];
        push_char(&mut out, hex_char(b / 16));
        push_char(&mut out, hex_char(b % 16));
        assert(digest@.subrange(0, i + 1).drop_last() =~= digest@.subrange(0, i as int));
        i = i + 1;
    }
    out
}

/// Builds `head + lower-cased source + tail`.
fn quoted_lowercase(head: &str, source: &str, tail: &str) -> (r: String)
    ensures
        r@ == head@ + ascii_lower_text(source@) + tail@,
{
    let mut message = text_of(head);
    let lowered = ascii_lowercase(source);
    message.append(lowered.as_str());
    message.append(tail);
    message
}

impl AutoConnectPolicy {
    pub fn as_str(self) -> (r: &'static str)
        ensures
            r@ == policy_name(self),
    {
        match self {
            AutoConnectPolicy::Off => "off",
            AutoConnectPolicy::Matching => "matching",
            AutoConnectPolicy::Always => "always",
        }
    }

    /// Parses a command-line value, ignoring ASCII case.
    pub fn from_command_line(source: &str) -> (r: Result<AutoConnectPolicy, String>)
        ensures
            r is Ok <==> policy_from_command_line(source@) is Some,
            r matches Ok(p) ==> policy_from_command_line(source@) == Some(p),
            r matches Err(message) ==> message@ == invalid_command_line_message(source@),
    {
        let lowered = ascii_lowercase(source);
        let l = lowered.as_str();
        if text_eq(l, "off") || text_eq(l, "never") || text_eq(l, "false") {
            Ok(AutoConnectPolicy::Off)
        } else if text_eq(l, "matching") || text_eq(l, "match") || text_eq(l, "true") {
            Ok(AutoConnectPolicy::Matching)
        } else if text_eq(l, "always") {
            Ok(AutoConnectPolicy::Always)
        } else {
            Err(
                quoted_lowercase(
                    "Invalid auto-connect policy '",
                    source,
                    "'. Valid values are: off, matching, always",
                ),
            )
        }
    }

    /// The policy a project file's `"autoConnect": true` or `false` means.
    pub fn from_project_bool(value: bool) -> (r: AutoConnectPolicy)
        ensures
            r == policy_from_bool(value),
    {
        if value {
            AutoConnectPolicy::Matching
        } else {
            AutoConnectPolicy::Off
        }
    }

    /// Parses a project file's string `autoConnect` value, ignoring ASCII
    /// case.
    pub fn from_project_name(name: &str) -> (r: Result<AutoConnectPolicy, String>)
        ensures
            r is Ok <==> policy_from_project_name(name@) is Some,
            r matches Ok(p) ==> policy_from_project_name(name@) == Some(p),
            r matches Err(message) ==> message@ == invalid_project_message(name@),
    {
        let lowered = ascii_lowercase(name);
        let l = lowered.as_str();
        if text_eq(l, "off") || text_eq(l, "never") {
            Ok(AutoConnectPolicy::Off)
        } else if text_eq(l, "matching") || text_eq(l, "match") {
            Ok(AutoConnectPolicy::Matching)
        } else if text_eq(l, "always") {
            Ok(AutoConnectPolicy::Always)
        } else {
            Err(
                quoted_lowercase(
                    "invalid autoConnect value '",
                    name,
                    "'. Valid values are 'off', 'matching', 'always', true, or false",
                ),
            )
        }
    }
}

/// Lets the policy be used directly as a command line value.
impl std::str::FromStr for AutoConnectPolicy {
    type Err = String;

    fn from_str(source: &str) -> (r: Result<AutoConnectPolicy, String>)
        ensures
            r is Ok <==> policy_from_command_line(source@) is Some,
            r matches Ok(p) ==> policy_from_command_line(source@) == Some(p),
            r matches Err(message) ==> message@ == invalid_command_line_message(source@),
    {
        AutoConnectPolicy::from_command_line(source)
    }
}

/// The default is the middle ground, `Matching`.
impl Default for AutoConnectPolicy {
    fn default() -> (r: AutoConnectPolicy)
        ensures
            r == AutoConnectPolicy::Matching,
    {
        AutoConnectPolicy::Matching
    }
}

/// A policy's canonical name reads back as that policy, both on the command
/// line and in a project file.
pub proof fn lemma_names_round_trip(p: AutoConnectPolicy)
    ensures
        policy_from_command_line(policy_name(p)) == Some(p),
        policy_from_project_name(policy_name(p)) == Some(p),
{
    reveal_strlit("off");
    reveal_strlit("never");
    reveal_strlit("false");
    reveal_strlit("matching");
    reveal_strlit("match");
    reveal_strlit("true");
    reveal_strlit("always");
    let n = policy_name(p);
    assert(ascii_lower_text(n) =~= n);
}

/// Names are compared without regard to ASCII case: a value reads as the same
/// policy, or the same refusal, as its lower-case form.
pub proof fn lemma_names_ignore_case(s: Seq<char>)
    ensures
        policy_from_command_line(s) == policy_from_command_line(ascii_lower_text(s)),
        policy_from_project_name(s) == policy_from_project_name(ascii_lower_text(s)),
        invalid_command_line_message(s) == invalid_command_line_message(ascii_lower_text(s)),
{
    lemma_ascii_lower_idempotent(s);
}

/// A project file names a policy only where the command line names the same
/// one; only the spelled-out booleans `true` and `false` are command-line
/// extras.
pub proof fn lemma_project_names_agree_with_command_line(s: Seq<char>)
    ensures
        policy_from_project_name(s) matches Some(p) ==> policy_from_command_line(s) == Some(p),
        policy_from_project_name(s) is None && policy_from_command_line(s) is Some ==> (
        ascii_lower_text(s) == "true"@ || ascii_lower_text(s) == "false"@),
{
    reveal_strlit("off");
    reveal_strlit("never");
    reveal_strlit("false");
    reveal_strlit("matching");
    reveal_strlit("match");
    reveal_strlit("true");
    reveal_strlit("always");
    let l = ascii_lower_text(s);
    if l == "matching"@ || l == "match"@ {
        assert(l != "off"@ && l != "never"@ && l != "false"@) by {
            assert(l[0] == 'm');
        }
    }
    if l == "always"@ {
        assert(l.len() == 6);
        assert(l != "off"@ && l != "never"@ && l != "false"@ && l != "matching"@ && l != "match"@
            && l != "true"@) by {
            assert(l[0] == 'a');
        }
    }
}

} // verus!
