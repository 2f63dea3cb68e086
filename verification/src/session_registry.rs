//! A machine-local directory of running serve sessions.
//!
//! Each serve session drops a small beacon named after its port in a
//! well-known directory and removes it on exit, so discovery is a directory
//! listing rather than a port scan. Reading and writing that directory, and
//! probing processes, happen in the caller; this module decides which files
//! are beacons, in what order sessions are listed, and which single session a
//! filter picks.

use vstd::prelude::*;

use crate::text::{ascii_upper, ascii_upper_char, decimal, push_char, push_decimal, text_eq, text_of};

verus! {

broadcast use {vstd::seq_lib::group_to_multiset_ensures, vstd::multiset::group_multiset_axioms};

#[verifier::external_type_specification]
#[verifier::external_body]
pub struct ExUuid(uuid::Uuid);

/// Identifies one serve session for its lifetime. The caller draws the
/// random identifier, since drawing one can fail.
#[derive(Debug, Clone, Copy, PartialEq, Eq, Hash)]
pub struct SessionId {
    uuid: uuid::Uuid,
}

impl SessionId {
    /// The session id that wraps `uuid`.
    pub fn from_uuid(uuid: uuid::Uuid) -> (r: SessionId)
        ensures
            r.uuid() == uuid,
    {
        SessionId { uuid }
    }

    pub closed spec fn uuid(self) -> uuid::Uuid {
        self.uuid
    }

    /// The identifier this session id wraps.
    pub fn as_uuid(&self) -> (r: uuid::Uuid)
        ensures
            r == self.uuid(),
    {
        self.uuid
    }
}

/// One running serve session, as advertised to other processes on this
/// machine.
#[derive(Debug, Clone)]
pub struct SessionBeacon {
    pub session_id: SessionId,
    pub pid: u32,
    pub address: String,
    pub port: u16,
    pub project_name: String,
    pub project_id: String,
    /// Absolute path to the project file, so an agent can tell which checkout
    /// a session belongs to without asking the server.
    pub project_path: String,
    pub place_id: Option<u64>,
    pub game_id: Option<u64>,
    pub serve_place_ids: Option<Vec<u64>>,
    pub auto_connect: String,
    pub server_version: String,
    pub started_at: u64,
}

/// Why no single session could be picked.
#[derive(Debug)]
pub enum ResolveError {
    /// No session passed the filter.
    NotFound,
    /// Several sessions passed the filter; picking one arbitrarily could point
    /// an agent's writes at the wrong project. They are kept, in listing order,
    /// to name them.
    Ambiguous(Vec<SessionBeacon>),
}

/// How a platform writes paths.
#[derive(Debug, Clone, Copy, PartialEq, Eq, Structural)]
pub enum PathStyle {
    /// `/` separates components.
    Unix,
    /// `\\` and `/` separate components, and a drive letter (`C:`) may lead.
    Windows,
}

// ---------------------------------------------------------------------------
// The model
// ---------------------------------------------------------------------------

/// The base URL a client uses to reach a session.
pub open spec fn base_url_text(address: Seq<char>, port: u16) -> Seq<char> {
    "http://"@ + address + ":"@ + decimal(port as nat)
}

/// The file a session's beacon is published under.
pub open spec fn beacon_file_text(port: u16) -> Seq<char> {
    decimal(port as nat) + ".json"@
}

/// Whether a directory entry's file name has the extension `json`: a name
/// that is only `.json` has no extension at all.
pub open spec fn is_beacon_name(name: Seq<char>) -> bool {
    name.len() > 5 && name.subrange(name.len() - 5, name.len() as int) == seq!['.', 'j', 's', 'o', 'n']
}

/// Sessions in non-decreasing port order.
pub open spec fn sorted_by_port(s: Seq<SessionBeacon>) -> bool {
    forall|i: int, j: int| 0 <= i < j < s.len() ==> s[i].port <= s[j].port
}

/// The sessions on one port, in their order.
pub open spec fn on_port(s: Seq<SessionBeacon>, port: u16) -> Seq<SessionBeacon> {
    s.filter(|b: SessionBeacon| b.port == port)
}

/// The pieces of a `/`-separated path, empty ones included, in order.
pub open spec fn path_segments(s: Seq<char>) -> Seq<Seq<char>>
    decreases s.len(),
{
    if s.len() == 0 {
        seq![Seq::<char>::empty()]
    } else {
        let prev = path_segments(s.drop_last());
        if s.last() == '/' {
            prev.push(Seq::<char>::empty())
        } else {
            prev.update(prev.len() - 1, prev.last().push(s.last()))
        }
    }
}

/// A piece that names a directory entry: not empty, and not `.`.
pub open spec fn is_normal_segment(seg: Seq<char>) -> bool {
    seg.len() > 0 && seg != seq!['.']
}

/// The components of a `/`-separated path body: a root `/` for an absolute
/// path, a leading `.` kept only at the start of a relative path, then every
/// piece but the empty ones and `.`.
pub open spec fn body_components(s: Seq<char>) -> Seq<Seq<char>> {
    let segs = path_segments(s);
    let head = if s.len() > 0 && s[0] == '/' {
        seq![seq!['/']]
    } else if segs[0] == seq!['.'] {
        seq![seq!['.']]
    } else {
        Seq::empty()
    };
    head + segs.filter(|seg: Seq<char>| is_normal_segment(seg))
}

/// Whether a character separates path components in a style of path.
pub open spec fn is_separator(c: char, style: PathStyle) -> bool {
    c == '/' || (style == PathStyle::Windows && c == '\\')
}

/// Whether a character is an ASCII letter.
pub open spec fn is_ascii_letter(c: char) -> bool {
    ('a' <= c && c <= 'z') || ('A' <= c && c <= 'Z')
}

/// The drive letter, upper-cased, that a Windows path starts with (`C:`).
pub open spec fn drive_letter(s: Seq<char>, style: PathStyle) -> Option<char> {
    if style == PathStyle::Windows && s.len() >= 2 && s[1] == ':' && is_ascii_letter(s[0]) {
        Some(ascii_upper(s[0]))
    } else {
        None
    }
}

/// A path with every separator written as `/` and its drive letter, if any,
/// upper-cased.
pub open spec fn normalized(s: Seq<char>, style: PathStyle) -> Seq<char> {
    let t = s.map_values(|c: char| if is_separator(c, style) { '/' } else { c });
    match drive_letter(s, style) {
        Some(d) => t.update(0, d),
        None => t,
    }
}

/// The components of a path as std's `Path::components` yields them for the
/// style: on Windows a drive prefix (`C:`, compared without regard to case)
/// comes first, and `\\` separates as `/` does. Verbatim (`\\?\`), device
/// and UNC (`\\server\share`) prefixes are not recognized as prefixes: such a
/// path reads as a rooted path whose first pieces are the prefix's parts.
pub open spec fn path_components(s: Seq<char>, style: PathStyle) -> Seq<Seq<char>> {
    let n = normalized(s, style);
    if drive_letter(s, style) is Some {
        seq![n.take(2)] + body_components(n.skip(2))
    } else {
        body_components(n)
    }
}

/// Whether `path` lies within `base`, component by component, as std's
/// `Path::starts_with` decides it on the style's platform.
pub open spec fn path_within(path: Seq<char>, base: Seq<char>, style: PathStyle) -> bool {
    path_components(base, style).is_prefix_of(path_components(path, style))
}

/// Whether a session passes the optional port and project filters.
pub open spec fn passes_filter(
    b: SessionBeacon,
    port: Option<u16>,
    project: Option<Seq<char>>,
    style: PathStyle,
) -> bool {
    &&& (port matches Some(p) ==> b.port == p)
    &&& (project matches Some(base) ==> path_within(b.project_path@, base, style))
}

/// The sessions that pass the filters, in their given order.
pub open spec fn filtered(
    s: Seq<SessionBeacon>,
    port: Option<u16>,
    project: Option<Seq<char>>,
    style: PathStyle,
) -> Seq<SessionBeacon> {
    s.filter(|b: SessionBeacon| passes_filter(b, port, project, style))
}

/// One line of the listing in an ambiguity error.
pub open spec fn candidate_line(b: SessionBeacon) -> Seq<char> {
    "  port "@ + decimal(b.port as nat) + " - "@ + b.project_name@
}

/// The candidate lines, joined by newlines.
pub open spec fn candidate_listing(s: Seq<SessionBeacon>) -> Seq<char>
    decreases s.len(),
{
    if s.len() == 0 {
        Seq::empty()
    } else if s.len() == 1 {
        candidate_line(s[0])
    } else {
        candidate_listing(s.drop_last()) + "\n"@ + candidate_line(s.last())
    }
}

pub open spec fn not_found_text() -> Seq<char> {
    "No running Roxo serve session was found. Start one with `roxo serve`, or pass --port to name a session on a specific port."@
}

pub open spec fn ambiguous_text(s: Seq<SessionBeacon>) -> Seq<char> {
    "Multiple Roxo serve sessions are running. Use --port to pick one:\n"@ + candidate_listing(s)
}

// ---------------------------------------------------------------------------
// Beacons and their files
// ---------------------------------------------------------------------------

impl SessionBeacon {
    /// The base URL a client should use to reach this session.
    pub fn base_url(&self) -> (r: String)
        ensures
            r@ == base_url_text(self.address@, self.port),
    {
        let mut url = text_of("http://");
        url.append(self.address.as_str());
        url.append(":");
        push_decimal(&mut url, self.port as u64);
        url
    }

    /// Where this session reports its status.
    pub fn status_url(&self) -> (r: String)
        ensures
            r@ == base_url_text(self.address@, self.port) + "/api/roxo/status"@,
    {
        let mut url = self.base_url();
        url.append("/api/roxo/status");
        url
    }

    /// The name of the file this session's beacon is published under.
    pub fn file_name(&self) -> (r: String)
        ensures
            r@ == beacon_file_text(self.port),
    {
        beacon_file_name(self.port)
    }
}

/// The name of the file a beacon for `port` is published under.
pub fn beacon_file_name(port: u16) -> (r: String)
    ensures
        r@ == beacon_file_text(port),
{
    let mut name = String::new();
    push_decimal(&mut name, port as u64);
    name.append(".json");
    name
}

/// Whether a directory entry is a beacon, judged by its file name: listing
/// skips everything whose extension is not `json`.
pub fn is_beacon_file_name(name: &str) -> (r: bool)
    ensures
        r == is_beacon_name(name@),
{
    let n = name.unicode_len();
    if n <= 5 {
        return false;
    }
    let tail = name.substring_char(n - 5, n);
    let r = text_eq(tail, ".json");
    proof {
        reveal_strlit(".json");
        assert(".json"@ =~= seq!['.', 'j', 's', 'o', 'n']);
    }
    r
}

/// Every file a session publishes its beacon under is one that listing
/// reads back.
pub proof fn lemma_published_beacons_are_listed(port: u16)
    ensures
        is_beacon_name(beacon_file_text(port)),
{
    reveal_strlit(".json");
    crate::text::lemma_decimal_digits(port as nat);
    let name = beacon_file_text(port);
    assert(name.subrange(name.len() - 5, name.len() as int) =~= seq!['.', 'j', 's', 'o', 'n']);
}

// ---------------------------------------------------------------------------
// Listing order
// ---------------------------------------------------------------------------

/// Inserting a session after every session on a lower or equal port, and
/// before every session on a higher one, appends it to its own port's group
/// and leaves the other groups alone.
proof fn lemma_insert_keeps_groups(s: Seq<SessionBeacon>, pos: int, x: SessionBeacon, port: u16)
    requires
        0 <= pos <= s.len(),
        forall|j: int| 0 <= j < pos ==> s[j].port <= x.port,
        forall|j: int| pos <= j < s.len() ==> s[j].port > x.port,
    ensures
        on_port(s.insert(pos, x), port) == if port == x.port {
            on_port(s, port).push(x)
        } else {
            on_port(s, port)
        },
{
    let pred = |b: SessionBeacon| b.port == port;
    let head = s.subrange(0, pos);
    let tail = s.subrange(pos, s.len() as int);
    assert(s =~= head + tail);
    assert(s.insert(pos, x) =~= head.push(x) + tail);
    Seq::filter_distributes_over_add(head, tail, pred);
    Seq::filter_distributes_over_add(head.push(x), tail, pred);
    head.lemma_filter_push(x, pred);
    if port == x.port {
        assert(tail.all(|b: SessionBeacon| !pred(b))) by {
            assert forall|j: int| 0 <= j < tail.len() implies !pred(#[trigger] tail[j]) by {
                assert(tail[j] == s[pos + j]);
            }
        }
        tail.lemma_all_neg_filter_empty(pred);
        assert(tail.filter(pred) =~= Seq::<SessionBeacon>::empty());
        assert(on_port(s.insert(pos, x), port) =~= on_port(s, port).push(x));
    } else {
        assert(on_port(s.insert(pos, x), port) =~= on_port(s, port));
    }
}

/// Orders sessions by port, keeping every session exactly once. Sessions on
/// the same port keep their relative order, as a stable sort by port would.
pub fn order_by_port(sessions: Vec<SessionBeacon>) -> (r: Vec<SessionBeacon>)
    ensures
        sorted_by_port(r@),
        r@.to_multiset() == sessions@.to_multiset(),
        forall|port: u16| #[trigger] on_port(r@, port) == on_port(sessions@, port),
{
    let ghost input = sessions@;
    let mut rest = sessions;
    let mut out: Vec<SessionBeacon> = Vec::new();
    let ghost mut taken: int = 0;
    proof {
        assert forall|port: u16| #[trigger] on_port(out@, port) == on_port(input.take(0), port) by {
            assert(input.take(0) =~= out@);
        }
    }
    while rest.len() > 0
        invariant
            0 <= taken <= input.len(),
            rest@ == input.skip(taken),
            sorted_by_port(out@),
            out@.to_multiset().add(rest@.to_multiset()) == input.to_multiset(),
            forall|port: u16| #[trigger] on_port(out@, port) == on_port(input.take(taken), port),
        decreases rest.len(),
    {
        let ghost rest_before = rest@;
        let ghost out_before = out@;
        let next = rest.remove(0);
        let mut pos: usize = 0;
        while pos < out.len() && out[pos].port <= next.port
            invariant
                0 <= pos <= out.len(),
                out@ == out_before,
                forall|j: int| 0 <= j < pos ==> out@[j].port <= next.port,
            decreases out.len() - pos,
        {
            pos = pos + 1;
        }
        proof {
            assert forall|j: int| pos <= j < out_before.len() implies out_before[j].port > next.port by {
                assert(out_before[pos as int].port > next.port);
                if j > pos {
                    assert(out_before[pos as int].port <= out_before[j].port);
                }
            }
        }
        out.insert(pos, next);
        proof {
            let s = out@;
            assert(s =~= out_before.insert(pos as int, next));
            assert forall|i: int, j: int| 0 <= i < j < s.len() implies s[i].port <= s[j].port by {
                if j < pos {
                    assert(s[i] == out_before[i] && s[j] == out_before[j]);
                } else if j == pos {
                    assert(s[i] == out_before[i]);
                } else if i < pos {
                    assert(s[i] == out_before[i] && s[j] == out_before[j - 1]);
                } else if i == pos {
                    assert(s[j] == out_before[j - 1]);
                } else {
                    assert(s[i] == out_before[i - 1] && s[j] == out_before[j - 1]);
                }
            }
            vstd::seq_lib::to_multiset_insert(out_before, pos as int, next);
            vstd::seq_lib::to_multiset_remove(rest_before, 0);
            assert(out@.to_multiset().add(rest@.to_multiset()) =~= out_before.to_multiset().add(
                rest_before.to_multiset(),
            ));
            assert(next == input[taken]);
            assert(input.take(taken + 1) =~= input.take(taken).push(next));
            assert forall|port: u16| #[trigger]
                on_port(out@, port) == on_port(input.take(taken + 1), port) by {
                lemma_insert_keeps_groups(out_before, pos as int, next, port);
                input.take(taken).lemma_filter_push(next, |b: SessionBeacon| b.port == port);
            }
            taken = taken + 1;
            assert(rest@ =~= input.skip(taken));
        }
    }
    proof {
        assert(input.take(taken) =~= input);
        assert(rest@ =~= Seq::<SessionBeacon>::empty());
        assert(out@.to_multiset().add(rest@.to_multiset()) =~= out@.to_multiset());
    }
    out
}

// ---------------------------------------------------------------------------
// Path components
// ---------------------------------------------------------------------------

proof fn lemma_segments_nonempty(s: Seq<char>)
    ensures
        path_segments(s).len() >= 1,
    decreases s.len(),
{
    if s.len() > 0 {
        lemma_segments_nonempty(s.drop_last());
    }
}

/// The characters of a string.
fn chars_of(s: &str) -> (r: Vec<char>)
    ensures
        r@ == s@,
{
    let mut out: Vec<char> = Vec::new();
    for c in it: s.chars()
        invariant
            it.seq() == s@,
            out@ == it.seq().take(it.index()),
            out@.len() == it.seq().len() ==> out@ =~= it.seq(),
    {
        out.push(c);
    }
    out
}

/// The text a range of characters spells.
spec fn spelled(cs: Seq<char>, r: (usize, usize)) -> Seq<char> {
    cs.subrange(r.0 as int, r.1 as int)
}

/// Ranges of `cs` that spell the given texts, in order.
spec fn spells(cs: Seq<char>, ranges: Seq<(usize, usize)>, texts: Seq<Seq<char>>) -> bool {
    &&& ranges.len() == texts.len()
    &&& forall|i: int| 0 <= i < ranges.len() ==> within(cs, #[trigger] ranges[i])
    &&& forall|i: int| 0 <= i < ranges.len() ==> #[trigger] spelled(cs, ranges[i]) == texts[i]
}

/// A range that lies inside `cs`.
spec fn within(cs: Seq<char>, r: (usize, usize)) -> bool {
    r.0 <= r.1 <= cs.len()
}

/// The ranges of the `/`-separated pieces of `cs`.
fn segment_ranges(cs: &Vec<char>) -> (r: Vec<(usize, usize)>)
    ensures
        spells(cs@, r@, path_segments(cs@)),
{
    let mut done: Vec<(usize, usize)> = Vec::new();
    let mut start: usize = 0;
    let mut i: usize = 0;
    proof {
        assert(cs@.take(0) =~= Seq::<char>::empty());
        assert(path_segments(cs@.take(0)) == seq![Seq::<char>::empty()]);
        assert(spelled(cs@, (0usize, 0usize)) =~= Seq::<char>::empty());
        assert(done@.push((start, i)) =~= seq![(0usize, 0usize)]);
    }
    while i < cs.len()
        invariant
            0 <= start <= i <= cs.len(),
            spells(cs@, done@.push((start, i)), path_segments(cs@.take(i as int))),
        decreases cs.len() - i,
    {
        let ghost prev = path_segments(cs@.take(i as int));
        let ghost old_ranges = done@.push((start, i));
        proof {
            lemma_segments_nonempty(cs@.take(i as int));
            assert(cs@.take(i + 1).drop_last() =~= cs@.take(i as int));
            assert(cs@.take(i + 1).last() == cs@[i as int]);
            assert(old_ranges.len() == prev.len());
        }
        if cs[i] == '/' {
            done.push((start, i));
            start = i + 1;
            proof {
                let ranges = done@.push((start, (i + 1) as usize));
                let texts = path_segments(cs@.take(i + 1));
                assert(texts == prev.push(Seq::<char>::empty()));
                assert(done@ == old_ranges);
                assert forall|j: int| #![trigger ranges[j]] 0 <= j < ranges.len() implies within(cs@, ranges[j])
                    && spelled(cs@, ranges[j]) == texts[j] by {
                    if j < ranges.len() - 1 {
                        assert(ranges[j] == old_ranges[j]);
                        assert(spelled(cs@, old_ranges[j]) == prev[j]);
                    } else {
                        assert(spelled(cs@, ranges[j]) =~= Seq::<char>::empty());
                    }
                }
                assert(spells(cs@, ranges, texts));
            }
        } else {
            proof {
                let ranges = done@.push((start, (i + 1) as usize));
                let texts = path_segments(cs@.take(i + 1));
                let last = prev.len() - 1;
                assert(texts == prev.update(last, prev.last().push(cs@[i as int])));
                assert forall|j: int| #![trigger ranges[j]] 0 <= j < ranges.len() implies within(cs@, ranges[j])
                    && spelled(cs@, ranges[j]) == texts[j] by {
                    assert(spelled(cs@, old_ranges[j]) == prev[j]);
                    if j < last {
                        assert(ranges[j] == old_ranges[j]);
                    } else {
                        assert(old_ranges[j] == (start, i));
                        assert(spelled(cs@, ranges[j]) =~= prev.last().push(cs@[i as int]));
                    }
                }
                assert(spells(cs@, ranges, texts));
            }
        }
        i = i + 1;
    }
    assert(cs@.take(cs@.len() as int) =~= cs@);
    done.push((start, i));
    done
}

/// The ranges of the components of `cs`, as `body_components` defines them.
fn component_ranges(cs: &Vec<char>) -> (r: Vec<(usize, usize)>)
    ensures
        spells(cs@, r@, body_components(cs@)),
{
    let segs = segment_ranges(cs);
    let ghost all = path_segments(cs@);
    proof {
        lemma_segments_nonempty(cs@);
    }
    let mut out: Vec<(usize, usize)> = Vec::new();
    let ghost head: Seq<Seq<char>>;
    assert(spelled(cs@, segs@[0]) == all[0]);
    if cs.len() > 0 && cs[0] == '/' {
        out.push((0, 1));
        proof {
            head = seq![seq!['/']];
            assert(spelled(cs@, (0usize, 1usize)) =~= seq!['/']);
        }
    } else if segs[0].1 - segs[0].0 == 1 && cs[segs[0].0] == '.' {
        out.push((segs[0].0, segs[0].1));
        proof {
            head = seq![seq!['.']];
            assert(spelled(cs@, segs@[0]) == all[0]);
            assert(all[0] =~= seq!['.']);
        }
    } else {
        proof {
            head = Seq::empty();
            assert(spelled(cs@, segs@[0]) == all[0]);
            if all[0] == seq!['.'] {
                assert(all[0].len() == 1);
                assert(all[0][0] == cs@[segs@[0].0 as int]);
            }
        }
    }
    let ghost pred = |seg: Seq<char>| is_normal_segment(seg);
    let mut j: usize = 0;
    proof {
        assert(all.take(0).filter(pred) =~= Seq::<Seq<char>>::empty());
        assert(head + all.take(0).filter(pred) =~= head);
    }
    while j < segs.len()
        invariant
            0 <= j <= segs.len(),
            all == path_segments(cs@),
            spells(cs@, segs@, all),
            pred == (|seg: Seq<char>| is_normal_segment(seg)),
            spells(cs@, out@, head + all.take(j as int).filter(pred)),
        decreases segs.len() - j,
    {
        let (s, e) = segs[j];
        assert(spelled(cs@, segs@[j as int]) == all[j as int]);
        let ghost seg = all[j as int];
        proof {
            assert(all.take(j + 1) =~= all.take(j as int).push(seg));
            all.take(j as int).lemma_filter_push(seg, pred);
        }
        let dot = e - s == 1 && cs[s] == '.';
        proof {
            if dot {
                assert(seg =~= seq!['.']);
            }
            if seg == seq!['.'] {
                assert(seg.len() == 1 && seg[0] == cs@[s as int]);
            }
        }
        if e > s && !dot {
            let ghost before = out@;
            out.push((s, e));
            proof {
                let texts = head + all.take(j + 1).filter(pred);
                assert(texts =~= (head + all.take(j as int).filter(pred)).push(seg));
                assert forall|k: int| #![trigger out@[k]] 0 <= k < out@.len() implies within(cs@, out@[k])
                    && spelled(cs@, out@[k]) == texts[k] by {
                    if k < before.len() {
                        assert(spelled(cs@, before[k]) == (head + all.take(j as int).filter(pred))[k]);
                    }
                }
            }
        } else {
            proof {
                assert(head + all.take(j + 1).filter(pred) =~= head + all.take(j as int).filter(pred));
            }
        }
        j = j + 1;
    }
    assert(all.take(segs.len() as int) =~= all);
    out
}

/// Whether two ranges spell the same text.
fn same_spelling(a: &Vec<char>, ra: (usize, usize), b: &Vec<char>, rb: (usize, usize)) -> (r: bool)
    requires
        ra.0 <= ra.1 <= a@.len(),
        rb.0 <= rb.1 <= b@.len(),
    ensures
        r == (spelled(a@, ra) == spelled(b@, rb)),
{
    if ra.1 - ra.0 != rb.1 - rb.0 {
        assert(spelled(a@, ra).len() != spelled(b@, rb).len());
        return false;
    }
    let n = ra.1 - ra.0;
    let mut k: usize = 0;
    while k < n
        invariant
            0 <= k <= n,
            n == ra.1 - ra.0,
            n == rb.1 - rb.0,
            ra.0 <= ra.1 <= a@.len(),
            rb.0 <= rb.1 <= b@.len(),
            forall|m: int| 0 <= m < k ==> #[trigger] spelled(a@, ra)[m] == spelled(b@, rb)[m],
        decreases n - k,
    {
        assert(spelled(a@, ra)[k as int] == a@[ra.0 + k]);
        assert(spelled(b@, rb)[k as int] == b@[rb.0 + k]);
        if a[ra.0 + k] != b[rb.0 + k] {
            return false;
        }
        k = k + 1;
    }
    assert(spelled(a@, ra) =~= spelled(b@, rb));
    true
}

/// The normalized characters of a path, and whether it has a drive prefix.
fn normalized_chars(s: &str, style: PathStyle) -> (r: (Vec<char>, bool))
    ensures
        r.0@ == normalized(s@, style),
        r.1 == drive_letter(s@, style) is Some,
{
    let cs = chars_of(s);
    let mut out: Vec<char> = Vec::new();
    let mut i: usize = 0;
    let ghost mapped = s@.map_values(|c: char| if is_separator(c, style) { '/' } else { c });
    while i < cs.len()
        invariant
            0 <= i <= cs.len(),
            cs@ == s@,
            mapped == s@.map_values(|c: char| if is_separator(c, style) { '/' } else { c }),
            out@ == mapped.take(i as int),
        decreases cs.len() - i,
    {
        let c = cs[i];
        let sep = c == '/' || (style == PathStyle::Windows && c == '\\');
        if sep {
            out.push('/');
        } else {
            out.push(c);
        }
        assert(mapped.take(i + 1) =~= mapped.take(i as int).push(mapped[i as int]));
        i = i + 1;
    }
    assert(mapped.take(cs.len() as int) =~= mapped);
    let drive = style == PathStyle::Windows && cs.len() >= 2 && cs[1] == ':' && (('a' <= cs[0]
        && cs[0] <= 'z') || ('A' <= cs[0] && cs[0] <= 'Z'));
    if drive {
        let upper = ascii_upper_char(cs[0]);
        out.set(0, upper);
    }
    (out, drive)
}

/// The ranges of every component of a normalized path.
fn all_component_ranges(n: &Vec<char>, has_drive: bool) -> (r: Vec<(usize, usize)>)
    requires
        has_drive ==> n@.len() >= 2,
    ensures
        spells(
            n@,
            r@,
            if has_drive {
                seq![n@.take(2)] + body_components(n@.skip(2))
            } else {
                body_components(n@)
            },
        ),
{
    let from: usize = if has_drive { 2 } else { 0 };
    let mut body: Vec<char> = Vec::new();
    let mut i: usize = from;
    while i < n.len()
        invariant
            from <= i <= n.len(),
            body@ == n@.subrange(from as int, i as int),
        decreases n.len() - i,
    {
        body.push(n[i]);
        assert(n@.subrange(from as int, i + 1) =~= n@.subrange(from as int, i as int).push(n@[i as int]));
        i = i + 1;
    }
    assert(body@ =~= n@.skip(from as int));
    let rb = component_ranges(&body);
    let ghost texts = body_components(body@);
    let mut out: Vec<(usize, usize)> = Vec::new();
    if has_drive {
        out.push((0, 2));
    }
    let ghost head: Seq<Seq<char>> = if has_drive {
        seq![n@.take(2)]
    } else {
        Seq::empty()
    };
    proof {
        if has_drive {
            assert(spelled(n@, (0usize, 2usize)) =~= n@.take(2));
        }
        assert(head + texts.take(0) =~= head);
    }
    let mut j: usize = 0;
    while j < rb.len()
        invariant
            0 <= j <= rb.len(),
            from == (if has_drive { 2usize } else { 0usize }),
            from <= n@.len(),
            body@ == n@.skip(from as int),
            texts == body_components(body@),
            spells(body@, rb@, texts),
            head == (if has_drive {
                seq![n@.take(2)]
            } else {
                Seq::<Seq<char>>::empty()
            }),
            spells(n@, out@, head + texts.take(j as int)),
        decreases rb.len() - j,
    {
        let (a, b) = rb[j];
        assert(within(body@, rb@[j as int]));
        assert(a <= b && b <= body@.len());
        assert(body@.len() + from == n@.len());
        assert(n@.len() == n.len());
        assert(spelled(body@, rb@[j as int]) == texts[j as int]);
        let ghost before = out@;
        let shifted = (a + from, b + from);
        out.push(shifted);
        proof {
            assert(spelled(n@, shifted) =~= spelled(body@, (a, b)));
            let want = head + texts.take(j + 1);
            assert(want =~= (head + texts.take(j as int)).push(texts[j as int]));
            assert forall|k: int| #![trigger out@[k]] 0 <= k < out@.len() implies within(n@, out@[k])
                && spelled(n@, out@[k]) == want[k] by {
                if k < before.len() {
                    assert(out@[k] == before[k]);
                    assert(spelled(n@, before[k]) == (head + texts.take(j as int))[k]);
                }
            }
        }
        j = j + 1;
    }
    assert(texts.take(rb.len() as int) =~= texts);
    assert(spells(n@, out@, head + texts));
    proof {
        if has_drive {
            assert(head + texts == seq![n@.take(2)] + body_components(n@.skip(2)));
        } else {
            assert(body@ =~= n@);
            assert(head + texts =~= body_components(n@));
        }
    }
    out
}

/// Whether `path` lies within `base`, compared component by component like
/// std's `Path::starts_with` on the style's platform: `/tmp/a/b` lies within
/// `/tmp/a` and `/tmp/a/`, but not within `/tmp/ab`; on Windows `c:\\a\\b`
/// lies within `C:/a`.
pub fn path_starts_with(path: &str, base: &str, style: PathStyle) -> (r: bool)
    ensures
        r == path_within(path@, base@, style),
{
    let (pc, p_drive) = normalized_chars(path, style);
    let (bc, b_drive) = normalized_chars(base, style);
    let pr = all_component_ranges(&pc, p_drive);
    let br = all_component_ranges(&bc, b_drive);
    let ghost pcs = path_components(path@, style);
    let ghost bcs = path_components(base@, style);
    if br.len() > pr.len() {
        return false;
    }
    let mut i: usize = 0;
    while i < br.len()
        invariant
            0 <= i <= br.len() <= pr.len(),
            pcs == path_components(path@, style),
            bcs == path_components(base@, style),
            spells(pc@, pr@, pcs),
            spells(bc@, br@, bcs),
            forall|m: int| 0 <= m < i ==> bcs[m] == pcs[m],
        decreases br.len() - i,
    {
        assert(spelled(pc@, pr@[i as int]) == pcs[i as int]);
        assert(spelled(bc@, br@[i as int]) == bcs[i as int]);
        if !same_spelling(&bc, br[i], &pc, pr[i]) {
            proof {
                if bcs.is_prefix_of(pcs) {
                    assert(bcs[i as int] == pcs.subrange(0, bcs.len() as int)[i as int]);
                    assert(false);
                }
            }
            return false;
        }
        i = i + 1;
    }
    assert(bcs =~= pcs.subrange(0, bcs.len() as int));
    true
}

// ---------------------------------------------------------------------------
// Picking a session
// ---------------------------------------------------------------------------

/// The sessions that pass the filters, in their given order.
fn filter_sessions(
    sessions: Vec<SessionBeacon>,
    port: Option<u16>,
    project: Option<&str>,
    style: PathStyle,
) -> (r: Vec<SessionBeacon>)
    ensures
        r@ == filtered(
            sessions@,
            port,
            match project {
                Some(p) => Some(p@),
                None => None,
            },
            style,
        ),
{
    let ghost input = sessions@;
    let ghost proj = match project {
        Some(p) => Some(p@),
        None => None,
    };
    let ghost pred = |b: SessionBeacon| passes_filter(b, port, proj, style);
    let mut rest = sessions;
    let mut out: Vec<SessionBeacon> = Vec::new();
    let ghost mut taken: int = 0;
    proof {
        assert(input.take(0).filter(pred) =~= Seq::<SessionBeacon>::empty());
    }
    while rest.len() > 0
        invariant
            0 <= taken <= input.len(),
            rest@ == input.skip(taken),
            out@ == input.take(taken).filter(pred),
            pred == (|b: SessionBeacon| passes_filter(b, port, proj, style)),
            proj == match project {
                Some(p) => Some(p@),
                None => None,
            },
        decreases rest.len(),
    {
        let next = rest.remove(0);
        proof {
            assert(next == input[taken]);
            assert(input.take(taken + 1) =~= input.take(taken).push(next));
            input.take(taken).lemma_filter_push(next, pred);
        }
        let port_ok = match port {
            Some(p) => next.port == p,
            None => true,
        };
        let project_ok = match project {
            Some(base) => path_starts_with(next.project_path.as_str(), base, style),
            None => true,
        };
        if port_ok && project_ok {
            out.push(next);
        }
        proof {
            taken = taken + 1;
            assert(rest@ =~= input.skip(taken));
        }
    }
    assert(input.take(input.len() as int) =~= input);
    out
}

/// Finds the single session that passes the optional port and project
/// filters.
///
/// Returns an error rather than a guess when the filter is ambiguous: picking
/// arbitrarily would point an agent's writes at whichever project happened to
/// sort first.
pub fn pick_session(
    sessions: Vec<SessionBeacon>,
    port: Option<u16>,
    project: Option<&str>,
    style: PathStyle,
) -> (r: Result<SessionBeacon, ResolveError>)
    ensures
        ({
            let c = filtered(
                sessions@,
                port,
                match project {
                    Some(p) => Some(p@),
                    None => None,
                },
                style,
            );
            &&& r is Ok <==> c.len() == 1
            &&& r matches Ok(b) ==> b == c[0]
            &&& (r matches Err(e) && e is NotFound) <==> c.len() == 0
            &&& (r matches Err(ResolveError::Ambiguous(v)) ==> c.len() > 1 && v@ == c)
        }),
{
    let mut candidates = filter_sessions(sessions, port, project, style);
    if candidates.len() == 0 {
        Err(ResolveError::NotFound)
    } else if candidates.len() == 1 {
        Ok(candidates.remove(0))
    } else {
        Err(ResolveError::Ambiguous(candidates))
    }
}

/// Whether the `i`-th session is the first that the process `pid` serves.
pub open spec fn first_with_pid(s: Seq<SessionBeacon>, pid: u32, i: int) -> bool {
    &&& 0 <= i < s.len()
    &&& s[i].pid == pid
    &&& forall|j: int| 0 <= j < i ==> (#[trigger] s[j]).pid != pid
}

/// The first listed session that the process `pid` serves, if any: how a
/// freshly spawned server is recognized once it advertises itself.
pub fn session_with_pid(sessions: Vec<SessionBeacon>, pid: u32) -> (r: Option<SessionBeacon>)
    ensures
        match r {
            Some(b) => exists|i: int| #[trigger] first_with_pid(sessions@, pid, i) && sessions@[i] == b,
            None => forall|i: int| 0 <= i < sessions@.len() ==> (#[trigger] sessions@[i]).pid != pid,
        },
{
    let ghost input = sessions@;
    let mut rest = sessions;
    let ghost mut taken: int = 0;
    while rest.len() > 0
        invariant
            0 <= taken <= input.len(),
            input == sessions@,
            rest@ == input.skip(taken),
            forall|j: int| 0 <= j < taken ==> (#[trigger] input[j]).pid != pid,
        decreases rest.len(),
    {
        let next = rest.remove(0);
        assert(next == input[taken]);
        if next.pid == pid {
            assert(first_with_pid(input, pid, taken) && input[taken] == next);
            return Some(next);
        }
        proof {
            taken = taken + 1;
            assert(rest@ =~= input.skip(taken));
        }
    }
    None
}

fn push_candidate_line(out: &mut String, b: &SessionBeacon)
    ensures
        final(out)@ == old(out)@ + candidate_line(*b),
{
    out.append("  port ");
    push_decimal(out, b.port as u64);
    out.append(" - ");
    out.append(b.project_name.as_str());
}

impl ResolveError {
    /// The message that explains the refusal to the caller.
    pub fn message(&self) -> (r: String)
        ensures
            self is NotFound ==> r@ == not_found_text(),
            (self matches ResolveError::Ambiguous(v) ==> r@ == ambiguous_text(v@)),
    {
        match self {
            ResolveError::NotFound => text_of(
                "No running Roxo serve session was found. Start one with `roxo serve`, or pass --port to name a session on a specific port.",
            ),
            ResolveError::Ambiguous(candidates) => {
                let mut out = text_of(
                    "Multiple Roxo serve sessions are running. Use --port to pick one:\n",
                );
                let ghost head = out@;
                let mut i: usize = 0;
                while i < candidates.len()
                    invariant
                        0 <= i <= candidates.len(),
                        out@ == head + candidate_listing(candidates@.take(i as int)),
                    decreases candidates.len() - i,
                {
                    let ghost before = out@;
                    proof {
                        assert(candidates@.take(i + 1).drop_last() =~= candidates@.take(i as int));
                    }
                    if i > 0 {
                        push_char(&mut out, '\n');
                    }
                    push_candidate_line(&mut out, &candidates[i]);
                    proof {
                        if i == 0 {
                            assert(candidates@.take(0) =~= Seq::<SessionBeacon>::empty());
                            assert(before =~= head);
                        } else {
                            assert(out@ =~= head + (candidate_listing(candidates@.take(i as int))
                                + seq!['\n'] + candidate_line(candidates@[i as int])));
                        }
                        reveal_strlit("\n");
                    }
                    i = i + 1;
                }
                assert(candidates@.take(candidates@.len() as int) =~= candidates@);
                out
            },
        }
    }
}

/// The pick never guesses: a session comes back only when it is the one
/// session that passes the filters, and any other outcome is an error.
pub proof fn lemma_pick_never_guesses(
    sessions: Seq<SessionBeacon>,
    port: Option<u16>,
    project: Option<Seq<char>>,
    style: PathStyle,
    b: SessionBeacon,
)
    requires
        filtered(sessions, port, project, style).len() == 1,
        filtered(sessions, port, project, style)[0] == b,
    ensures
        sessions.contains(b),
        passes_filter(b, port, project, style),
        forall|i: int| 0 <= i < sessions.len() && passes_filter(#[trigger] sessions[i], port, project, style) ==> sessions[i] == b,
{
    let pred = |x: SessionBeacon| passes_filter(x, port, project, style);
    let c = sessions.filter(pred);
    assert(c.contains(b));
    sessions.lemma_filter_contains_rev(pred, b);
    assert forall|i: int| 0 <= i < sessions.len() && passes_filter(#[trigger] sessions[i], port, project, style) implies sessions[i] == b by {
        sessions.lemma_filter_contains(pred, i);
        assert(c.contains(sessions[i]));
    }
}

/// A project always lies within itself.
pub proof fn lemma_within_is_reflexive(path: Seq<char>, style: PathStyle)
    ensures
        path_within(path, path, style),
{
    let c = path_components(path, style);
    assert(c =~= c.subrange(0, c.len() as int));
}

} // verus!
