//! Tracks which Studio clients are attached to a serve session.
//!
//! A running server is not a connected one: an agent needs to know whether
//! Studio actually attached and holds a live subscription. This registry
//! records every client that handshook, which of them subscribed, and forgets
//! probes that handshook and walked away.

use std::collections::HashMap;
use vstd::prelude::*;

use crate::text::text_of;

verus! {

broadcast use vstd::std_specs::hash::group_hash_axioms;

/// Identifies one connected client for the lifetime of its session.
pub type ClientId = u64;

/// How long a client that handshook but never subscribed is remembered, in
/// seconds.
pub const UNSUBSCRIBED_TTL_SECS: u64 = 60;

/// What a client told us about itself during its handshake, plus what we
/// observed about it.
#[derive(Debug, Clone)]
pub struct ClientInfo {
    pub id: ClientId,
    /// The Roblox place the client is editing. `Some(0)` means an unpublished
    /// place, which is distinct from `None` (a client too old to tell us).
    pub place_id: Option<u64>,
    pub game_id: Option<u64>,
    /// Name and version the client reported. Clients that predate the
    /// handshake report as `unknown`.
    pub client_name: String,
    pub client_version: Option<String>,
    /// Whether the client reached us without a human pressing Connect, and
    /// which rule let it.
    pub auto_connected: bool,
    pub match_reason: Option<String>,
    pub remote_addr: String,
    /// Seconds since the Unix epoch.
    pub connected_at: u64,
    pub last_seen: u64,
    /// Whether the client currently holds an open change subscription.
    pub subscribed: bool,
}

/// Details a client provides about itself when it connects.
#[derive(Debug, Clone, Default)]
pub struct ClientHandshake {
    pub place_id: Option<u64>,
    pub game_id: Option<u64>,
    pub client_name: Option<String>,
    pub client_version: Option<String>,
    pub auto_connected: bool,
    pub match_reason: Option<String>,
}

/// The clients known to one serve session, keyed by the id each was given.
pub struct ClientRegistry {
    clients: HashMap<ClientId, ClientInfo>,
    /// The id the next handshake receives: above every id in use. `None` once
    /// the id counter has passed its last value; handshakes then take the
    /// smallest id not in use.
    next_id: Option<u64>,
}

// ---------------------------------------------------------------------------
// The model
// ---------------------------------------------------------------------------

/// Seconds since a client was last seen; a clock that went backwards counts
/// as no time at all.
pub open spec fn idle_secs(c: ClientInfo, now: u64) -> int {
    if now >= c.last_seen {
        now - c.last_seen
    } else {
        0
    }
}

/// Whether pruning at time `now` keeps a client: subscribers always stay, and
/// others only while they are younger than the TTL.
pub open spec fn is_retained(c: ClientInfo, now: u64) -> bool {
    c.subscribed || idle_secs(c, now) < UNSUBSCRIBED_TTL_SECS
}

/// The clients that survive pruning at time `now`.
pub open spec fn retained(m: Map<ClientId, ClientInfo>, now: u64) -> Map<ClientId, ClientInfo> {
    m.restrict(m.dom().filter(|k: ClientId| is_retained(m[k], now)))
}

/// The ids of the clients holding a live subscription.
pub open spec fn subscribed_ids(m: Map<ClientId, ClientInfo>) -> Set<ClientId> {
    m.dom().filter(|k: ClientId| m[k].subscribed)
}

/// The client record a handshake produces: what the client said, `unknown`
/// for a missing name, first and last seen at `now`, not yet subscribed.
pub open spec fn records_handshake(
    c: ClientInfo,
    id: ClientId,
    hs: ClientHandshake,
    remote_addr: String,
    now: u64,
) -> bool {
    &&& c.id == id
    &&& c.place_id == hs.place_id
    &&& c.game_id == hs.game_id
    &&& match hs.client_name {
        Some(name) => c.client_name == name,
        None => c.client_name@ == "unknown"@,
    }
    &&& c.client_version == hs.client_version
    &&& c.auto_connected == hs.auto_connected
    &&& c.match_reason == hs.match_reason
    &&& c.remote_addr == remote_addr
    &&& c.connected_at == now
    &&& c.last_seen == now
    &&& !c.subscribed
}

/// A client record after activity at `now`, with its subscription set.
pub open spec fn with_activity(c: ClientInfo, subscribed: bool, now: u64) -> ClientInfo {
    ClientInfo { subscribed: subscribed, last_seen: now, ..c }
}

/// A client record after it was seen again at `now`.
pub open spec fn seen_at(c: ClientInfo, now: u64) -> ClientInfo {
    ClientInfo { last_seen: now, ..c }
}

/// The record of a client that subscribed without a handshake: nothing is
/// known of it beyond its id, so it reports as `unknown`, with no address.
pub open spec fn is_unannounced_client(c: ClientInfo, id: ClientId, subscribed: bool, now: u64) -> bool {
    &&& c.id == id
    &&& c.place_id is None
    &&& c.game_id is None
    &&& c.client_name@ == "unknown"@
    &&& c.client_version is None
    &&& !c.auto_connected
    &&& c.match_reason is None
    &&& c.remote_addr@ == Seq::<char>::empty()
    &&& c.connected_at == now
    &&& c.last_seen == now
    &&& c.subscribed == subscribed
}

/// `after` is `before` after `id` was marked (un)subscribed at `now`: a known
/// client keeps its record with the subscription set and seen now; an id that
/// never handshook still gets an entry, so an old plugin or a hand-rolled
/// client shows up rather than being invisible.
pub open spec fn marks(
    before: Map<ClientId, ClientInfo>,
    after: Map<ClientId, ClientInfo>,
    id: ClientId,
    subscribed: bool,
    now: u64,
) -> bool {
    &&& after == before.insert(id, after[id])
    &&& if before.contains_key(id) {
        after[id] == with_activity(before[id], subscribed, now)
    } else {
        is_unannounced_client(after[id], id, subscribed, now)
    }
}

/// The map after `id` was seen at `now`; unknown ids change nothing.
pub open spec fn touched(m: Map<ClientId, ClientInfo>, id: ClientId, now: u64) -> Map<
    ClientId,
    ClientInfo,
> {
    if m.contains_key(id) {
        m.insert(id, seen_at(m[id], now))
    } else {
        m
    }
}

/// Whether `id` lies below the id counter, which an exhausted counter does
/// not bound.
pub open spec fn below_counter(next: Option<u64>, id: ClientId) -> bool {
    match next {
        Some(n) => id < n,
        None => true,
    }
}

/// The counter after it handed out its current value.
pub open spec fn counter_after_issue(next: Option<u64>) -> Option<u64> {
    match next {
        Some(n) => if n == u64::MAX {
            None
        } else {
            Some((n + 1) as u64)
        },
        None => None,
    }
}

/// The counter after `id` came into use from elsewhere: it moves past `id`
/// when it had not yet passed it.
pub open spec fn counter_after_use(next: Option<u64>, id: ClientId) -> Option<u64> {
    match next {
        Some(n) => if id < n {
            next
        } else if id == u64::MAX {
            None
        } else {
            Some((id + 1) as u64)
        },
        None => None,
    }
}

/// `v` lists exactly the clients of `m`, each as recorded, in increasing id
/// order.
pub open spec fn is_listing(m: Map<ClientId, ClientInfo>, v: Seq<ClientInfo>) -> bool {
    &&& forall|i: int, j: int| 0 <= i < j < v.len() ==> v[i].id < v[j].id
    &&& forall|i: int| 0 <= i < v.len() ==> m.contains_key(#[trigger] v[i].id) && m[v[i].id] == v[i]
    &&& forall|k: ClientId| #[trigger] m.contains_key(k) ==> exists|i: int| 0 <= i < v.len() && v[i].id == k
}

/// A strictly increasing sequence of ids.
pub open spec fn strictly_increasing(s: Seq<ClientId>) -> bool {
    forall|i: int, j: int| 0 <= i < j < s.len() ==> s[i] < s[j]
}

impl View for ClientRegistry {
    type V = Map<ClientId, ClientInfo>;

    closed spec fn view(&self) -> Map<ClientId, ClientInfo> {
        self.clients@
    }
}

impl ClientInfo {
    /// A field-by-field copy of this record.
    pub fn copy_info(&self) -> (r: ClientInfo)
        ensures
            r == *self,
    {
        ClientInfo {
            id: self.id,
            place_id: self.place_id,
            game_id: self.game_id,
            client_name: self.client_name.clone(),
            client_version: copy_text(&self.client_version),
            auto_connected: self.auto_connected,
            match_reason: copy_text(&self.match_reason),
            remote_addr: self.remote_addr.clone(),
            connected_at: self.connected_at,
            last_seen: self.last_seen,
            subscribed: self.subscribed,
        }
    }
}

fn copy_text(s: &Option<String>) -> (r: Option<String>)
    ensures
        r == *s,
{
    match s {
        Some(t) => Some(t.clone()),
        None => None,
    }
}

// ---------------------------------------------------------------------------
// Reading the clock
// ---------------------------------------------------------------------------

#[verifier::external_type_specification]
#[verifier::external_body]
pub struct ExSystemTime(std::time::SystemTime);

/// std's `SystemTime::now`: a reading of the system clock. Nothing is claimed
/// of the value, which depends on the machine and the moment.
#[verifier::external_body]
fn system_now() -> std::time::SystemTime {
    std::time::SystemTime::now()
}

/// std's `SystemTime::duration_since(UNIX_EPOCH)` in whole seconds, `None`
/// where the reading lies before the epoch. Nothing is claimed of the value:
/// it depends on a clock reading that has no model here.
#[verifier::external_body]
fn secs_since_epoch(t: &std::time::SystemTime) -> Option<u64> {
    match t.duration_since(std::time::UNIX_EPOCH) {
        Ok(duration) => Some(duration.as_secs()),
        Err(_) => None,
    }
}

/// Seconds since the Unix epoch, or 0 where the clock reads before it.
///
/// Seconds rather than an `Instant`, so the values can cross the API boundary
/// into an agent's JSON. The value comes from the clock: nothing is promised
/// of it beyond its type.
pub fn now_secs() -> u64 {
    match secs_since_epoch(&system_now()) {
        Some(secs) => secs,
        None => 0,
    }
}

// ---------------------------------------------------------------------------
// Sorted id lists
// ---------------------------------------------------------------------------

/// Inserts `x` into a strictly increasing list that does not hold it yet.
fn insert_sorted(v: &mut Vec<ClientId>, x: ClientId)
    requires
        strictly_increasing(old(v)@),
        !old(v)@.contains(x),
    ensures
        strictly_increasing(final(v)@),
        final(v)@.to_set() == old(v)@.to_set().insert(x),
        final(v)@.len() == old(v)@.len() + 1,
{
    let mut pos: usize = 0;
    while pos < v.len() && v[pos] < x
        invariant
            0 <= pos <= v.len(),
            forall|j: int| 0 <= j < pos ==> v@[j] < x,
        decreases v.len() - pos,
    {
        pos = pos + 1;
    }
    let ghost before = v@;
    proof {
        assert forall|j: int| pos <= j < before.len() implies before[j] > x by {
            assert(before[pos as int] >= x);
            assert(before[pos as int] != x);
            if j > pos {
                assert(before[pos as int] < before[j]);
            }
        }
    }
    v.insert(pos, x);
    assert(v@ =~= before.subrange(0, pos as int).push(x) + before.subrange(pos as int, before.len() as int));
    assert forall|i: int, j: int| 0 <= i < j < v@.len() implies v@[i] < v@[j] by {
        if j < pos {
        } else if j == pos {
        } else if i < pos {
        } else if i == pos {
        } else {
        }
    }
    assert forall|y: ClientId| #[trigger] v@.contains(y) <==> before.to_set().insert(x).contains(y) by {
        if v@.contains(y) {
            let i = choose|i: int| 0 <= i < v@.len() && v@[i] == y;
            if i < pos {
                assert(before[i] == y);
            } else if i > pos {
                assert(before[i - 1] == y);
            }
        }
        if before.contains(y) {
            let i = choose|i: int| 0 <= i < before.len() && before[i] == y;
            if i < pos {
                assert(v@[i] == y);
            } else {
                assert(v@[i + 1] == y);
            }
        }
        if y == x {
            assert(v@[pos as int] == x);
        }
    }
    assert(v@.to_set() =~= before.to_set().insert(x));
}

/// In a strictly increasing sequence of ids, each id is at least its index.
proof fn lemma_increasing_ids_reach_index(s: Seq<ClientId>, j: int)
    requires
        strictly_increasing(s),
        0 <= j < s.len(),
    ensures
        s[j] >= j,
    decreases j,
{
    if j > 0 {
        lemma_increasing_ids_reach_index(s, j - 1);
    }
}

// ---------------------------------------------------------------------------
// The registry
// ---------------------------------------------------------------------------

impl ClientRegistry {
    /// Every recorded client is stored under its own id, and every id in use
    /// lies below the id counter.
    #[verifier::type_invariant]
    closed spec fn well_formed(self) -> bool {
        &&& forall|k: ClientId| #[trigger] self.clients@.contains_key(k) ==> self.clients@[k].id == k
        &&& forall|k: ClientId| #[trigger] self.clients@.contains_key(k) ==> below_counter(self.next_id, k)
    }

    /// The id counter: the id the next handshake receives, `None` once it is
    /// exhausted.
    pub closed spec fn next_fresh(self) -> Option<u64> {
        self.next_id
    }

    pub fn new() -> (r: Self)
        ensures
            r@ == Map::<ClientId, ClientInfo>::empty(),
            r.next_fresh() == Some(0u64),
    {
        ClientRegistry { clients: HashMap::new(), next_id: Some(0) }
    }

    fn client_ids(&self) -> (ids: Vec<ClientId>)
        ensures
            ids@.to_set() == self.clients@.dom(),
            ids@.no_duplicates(),
    {
        let mut ids: Vec<ClientId> = Vec::new();
        let keys = self.clients.keys();
        let ghost start = keys;
        assert(vstd::std_specs::iter::IteratorSpec::remaining(&start).unref().to_set()
            == self.clients@.dom());
        for k in it: keys
            invariant
                it.seq() == vstd::std_specs::iter::IteratorSpec::remaining(&start),
                vstd::std_specs::iter::IteratorSpec::remaining(&start).unref().to_set()
                    == self.clients@.dom(),
                vstd::std_specs::iter::IteratorSpec::remaining(&start).no_duplicates(),
                ids@ == it.seq().take(it.index()).unref(),
                ids@.len() == it.seq().len() ==> ids@ =~= it.seq().unref(),
        {
            ids.push(*k);
        }
        ids
    }

    fn insert_client(&mut self, info: ClientInfo)
        requires
            below_counter(old(self).next_fresh(), info.id),
        ensures
            final(self)@ == old(self)@.insert(info.id, info),
            final(self).next_fresh() == old(self).next_fresh(),
    {
        proof {
            use_type_invariant(&*self);
        }
        let mut clients = HashMap::new();
        std::mem::swap(&mut clients, &mut self.clients);
        clients.insert(info.id, info);
        self.clients = clients;
    }

    fn take_client(&mut self, id: ClientId) -> (r: Option<ClientInfo>)
        ensures
            final(self)@ == old(self)@.remove(id),
            final(self).next_fresh() == old(self).next_fresh(),
            old(self)@.contains_key(id) ==> r == Some(old(self)@[id]),
            !old(self)@.contains_key(id) ==> r is None,
            r matches Some(c) ==> c.id == id,
            r is Some ==> below_counter(old(self).next_fresh(), id),
    {
        proof {
            use_type_invariant(&*self);
        }
        let mut clients = HashMap::new();
        std::mem::swap(&mut clients, &mut self.clients);
        let r = clients.remove(&id);
        self.clients = clients;
        r
    }

    /// Forgets, as of time `now`, clients that handshook but never established
    /// a subscription and have been idle for the TTL or longer.
    pub fn prune_stale_at(&mut self, now: u64)
        ensures
            final(self)@ == retained(old(self)@, now),
            final(self).next_fresh() == old(self).next_fresh(),
    {
        let ids = self.client_ids();
        let ghost start = self@;
        let mut i: usize = 0;
        while i < ids.len()
            invariant
                0 <= i <= ids.len(),
                ids@.to_set() == start.dom(),
                ids@.no_duplicates(),
                self.next_fresh() == old(self).next_fresh(),
                forall|k: ClientId| #[trigger]
                    self@.contains_key(k) <==> start.contains_key(k) && (ids@.take(i as int).contains(k)
                        ==> is_retained(start[k], now)),
                forall|k: ClientId| #[trigger] self@.contains_key(k) ==> self@[k] == start[k],
            decreases ids.len() - i,
        {
            let id = ids[i];
            assert(ids@.take(i + 1) =~= ids@.take(i as int).push(id));
            assert(!ids@.take(i as int).contains(id));
            assert(start.contains_key(id)) by {
                assert(ids@.contains(id));
            }
            let entry = self.take_client(id);
            match entry {
                Some(client) => {
                    let idle = now.saturating_sub(client.last_seen);
                    assert(idle == idle_secs(client, now));
                    if client.subscribed || idle < UNSUBSCRIBED_TTL_SECS {
                        self.insert_client(client);
                    }
                },
                None => {},
            }
            let ghost pre = ids@.take(i as int);
            let ghost post = ids@.take(i + 1);
            assert forall|k: ClientId| #[trigger] post.contains(k) <==> (pre.contains(k) || k == id) by {
                if post.contains(k) {
                    let a = choose|a: int| 0 <= a < post.len() && post[a] == k;
                    if a < i {
                        assert(pre[a] == k);
                    }
                }
                if pre.contains(k) {
                    let a = choose|a: int| 0 <= a < pre.len() && pre[a] == k;
                    assert(post[a] == k);
                }
                if k == id {
                    assert(post[i as int] == k);
                }
            }
            i = i + 1;
        }
        assert(ids@.take(ids@.len() as int) =~= ids@);
        assert(self@ =~= retained(start, now)) by {
            assert forall|k: ClientId| self@.contains_key(k) <==> retained(start, now).contains_key(k) by {
                if start.contains_key(k) {
                    assert(ids@.to_set().contains(k));
                }
            }
        }
    }

    /// Forgets clients that handshook but never established a subscription.
    ///
    /// Subscribed clients are never pruned by age; they are removed when their
    /// connection actually closes.
    pub fn prune_stale(&mut self)
        ensures
            exists|now: u64| final(self)@ == retained(#[trigger] old(self)@, now),
            final(self).next_fresh() == old(self).next_fresh(),
    {
        let now = now_secs();
        self.prune_stale_at(now);
    }

    /// The ids in use, in increasing order.
    fn sorted_ids(&self) -> (sorted: Vec<ClientId>)
        ensures
            strictly_increasing(sorted@),
            sorted@.to_set() == self@.dom(),
    {
        let ids = self.client_ids();
        let mut sorted: Vec<ClientId> = Vec::new();
        let mut i: usize = 0;
        while i < ids.len()
            invariant
                0 <= i <= ids.len(),
                ids@.no_duplicates(),
                strictly_increasing(sorted@),
                sorted@.to_set() == ids@.take(i as int).to_set(),
            decreases ids.len() - i,
        {
            let id = ids[i];
            assert(!ids@.take(i as int).contains(id));
            assert(!sorted@.contains(id)) by {
                if sorted@.contains(id) {
                    assert(sorted@.to_set().contains(id));
                }
            }
            insert_sorted(&mut sorted, id);
            assert(ids@.take(i + 1) =~= ids@.take(i as int).push(id));
            proof {
                ids@.take(i as int).lemma_push_to_set_commute(id);
            }
            i = i + 1;
        }
        assert(ids@.take(ids@.len() as int) =~= ids@);
        sorted
    }

    /// The smallest id not in use. Some id is always free: the map holds
    /// fewer entries than there are ids.
    fn smallest_unused_id(&self) -> (id: ClientId)
        ensures
            !self@.contains_key(id),
            forall|k: ClientId| k < id ==> #[trigger] self@.contains_key(k),
    {
        let sorted = self.sorted_ids();
        let mut i: usize = 0;
        while i < sorted.len() && sorted[i] == i as u64
            invariant
                0 <= i <= sorted.len(),
                strictly_increasing(sorted@),
                forall|j: int| 0 <= j < i ==> sorted@[j] == j,
            decreases sorted.len() - i,
        {
            i = i + 1;
        }
        let id = i as u64;
        proof {
            assert forall|j: int| 0 <= j < sorted@.len() implies sorted@[j] != id by {
                if j < i {
                } else {
                    lemma_increasing_ids_reach_index(sorted@, i as int);
                    assert(sorted@[i as int] > id);
                    if j > i {
                        assert(sorted@[i as int] < sorted@[j]);
                    }
                }
            }
            if sorted@.to_set().contains(id) {
                assert(sorted@.contains(id));
            }
            assert forall|k: ClientId| k < id implies #[trigger] self@.contains_key(k) by {
                assert(sorted@[k as int] == k);
                assert(sorted@.contains(k));
                assert(sorted@.to_set().contains(k));
            }
        }
        id
    }

    /// Takes an id that is not in use and lies below the counter afterwards.
    fn fresh_id(&mut self) -> (id: ClientId)
        ensures
            final(self)@ == old(self)@,
            !old(self)@.contains_key(id),
            old(self).next_fresh() is Some ==> old(self).next_fresh() == Some(id),
            final(self).next_fresh() == counter_after_issue(old(self).next_fresh()),
            below_counter(final(self).next_fresh(), id),
    {
        proof {
            use_type_invariant(&*self);
        }
        match self.next_id {
            Some(n) => {
                self.next_id = if n == u64::MAX {
                    None
                } else {
                    Some(n + 1)
                };
                n
            },
            None => self.smallest_unused_id(),
        }
    }

    fn record_handshake(
        &mut self,
        handshake: ClientHandshake,
        remote_addr: String,
        now: u64,
        id: ClientId,
    )
        requires
            below_counter(old(self).next_fresh(), id),
        ensures
            final(self).next_fresh() == old(self).next_fresh(),
            final(self)@ == old(self)@.insert(id, final(self)@[id]),
            records_handshake(final(self)@[id], id, handshake, remote_addr, now),
    {
        let client_name = match handshake.client_name {
            Some(name) => name,
            None => String::from_str("unknown"),
        };
        let info = ClientInfo {
            id,
            place_id: handshake.place_id,
            game_id: handshake.game_id,
            client_name,
            client_version: handshake.client_version,
            auto_connected: handshake.auto_connected,
            match_reason: handshake.match_reason,
            remote_addr,
            connected_at: now,
            last_seen: now,
            subscribed: false,
        };
        self.insert_client(info);
    }

    /// Records a client handshake at time `now` and returns the id assigned to
    /// it: an id not in use, the counter's next value while it lasts. Stale
    /// clients are pruned, as of the same time.
    pub fn handshake_at(&mut self, handshake: ClientHandshake, remote_addr: String, now: u64) -> (id:
        ClientId)
        ensures
            !old(self)@.contains_key(id),
            old(self).next_fresh() is Some ==> old(self).next_fresh() == Some(id),
            final(self).next_fresh() == counter_after_issue(old(self).next_fresh()),
            final(self)@ == retained(old(self)@, now).insert(id, final(self)@[id]),
            records_handshake(final(self)@[id], id, handshake, remote_addr, now),
    {
        let id = self.fresh_id();
        self.prune_stale_at(now);
        self.record_handshake(handshake, remote_addr, now, id);
        id
    }

    /// Records a client handshake and returns the id assigned to it: an id not
    /// in use, the counter's next value while it lasts.
    ///
    /// Stale clients are pruned first; both steps read the clock, so the
    /// contract speaks of the two readings as `pruned_at` and `now`.
    pub fn handshake(&mut self, handshake: ClientHandshake, remote_addr: String) -> (id: ClientId)
        ensures
            !old(self)@.contains_key(id),
            old(self).next_fresh() is Some ==> old(self).next_fresh() == Some(id),
            final(self).next_fresh() == counter_after_issue(old(self).next_fresh()),
            exists|pruned_at: u64, now: u64|
                {
                    &&& final(self)@ == retained(#[trigger] old(self)@, pruned_at).insert(
                        id,
                        final(self)@[id],
                    )
                    &&& records_handshake(final(self)@[id], id, handshake, remote_addr, now)
                },
    {
        let id = self.fresh_id();
        let pruned_at = now_secs();
        self.prune_stale_at(pruned_at);
        let now = now_secs();
        self.record_handshake(handshake, remote_addr, now, id);
        id
    }

    /// Marks a client, as of time `now`, as holding (or having released) a
    /// live subscription. An id that never handshook gets an entry, and the id
    /// counter moves past it so that no handshake is given that id.
    pub fn set_subscribed_at(&mut self, id: ClientId, subscribed: bool, now: u64)
        ensures
            marks(old(self)@, final(self)@, id, subscribed, now),
            final(self).next_fresh() == counter_after_use(old(self).next_fresh(), id),
    {
        proof {
            use_type_invariant(&*self);
        }
        match self.take_client(id) {
            Some(client) => {
                let mut client = client;
                client.subscribed = subscribed;
                client.last_seen = now;
                self.insert_client(client);
                assert(self@ =~= old(self)@.insert(id, self@[id]));
            },
            None => {
                self.use_id(id);
                let client = ClientInfo {
                    id,
                    place_id: None,
                    game_id: None,
                    client_name: text_of("unknown"),
                    client_version: None,
                    auto_connected: false,
                    match_reason: None,
                    remote_addr: String::new(),
                    connected_at: now,
                    last_seen: now,
                    subscribed,
                };
                self.insert_client(client);
                assert(self@ =~= old(self)@.insert(id, self@[id]));
            },
        }
    }

    /// Moves the id counter past an id that came into use.
    fn use_id(&mut self, id: ClientId)
        ensures
            final(self)@ == old(self)@,
            final(self).next_fresh() == counter_after_use(old(self).next_fresh(), id),
            below_counter(final(self).next_fresh(), id),
    {
        proof {
            use_type_invariant(&*self);
        }
        match self.next_id {
            Some(n) => {
                if id >= n {
                    self.next_id = if id == u64::MAX {
                        None
                    } else {
                        Some(id + 1)
                    };
                }
            },
            None => {},
        }
    }

    /// Marks a client as holding (or having released) a live subscription. An
    /// id that never handshook gets an entry, so that an old plugin or a
    /// hand-rolled client still shows up as connected rather than being
    /// invisible.
    pub fn set_subscribed(&mut self, id: ClientId, subscribed: bool)
        ensures
            exists|now: u64| #[trigger] marks(old(self)@, final(self)@, id, subscribed, now),
            final(self).next_fresh() == counter_after_use(old(self).next_fresh(), id),
    {
        let now = now_secs();
        self.set_subscribed_at(id, subscribed, now);
    }

    /// Records, as of time `now`, that a client was seen. Unknown ids are left
    /// alone.
    pub fn touch_at(&mut self, id: ClientId, now: u64)
        ensures
            final(self)@ == touched(old(self)@, id, now),
            final(self).next_fresh() == old(self).next_fresh(),
    {
        match self.take_client(id) {
            Some(client) => {
                let mut client = client;
                client.last_seen = now;
                self.insert_client(client);
                assert(self@ =~= touched(old(self)@, id, now));
            },
            None => {
                assert(self@ =~= old(self)@);
            },
        }
    }

    /// Records that a client was seen.
    pub fn touch(&mut self, id: ClientId)
        ensures
            exists|now: u64| final(self)@ == touched(#[trigger] old(self)@, id, now),
            final(self).next_fresh() == old(self).next_fresh(),
    {
        let now = now_secs();
        self.touch_at(id, now);
    }

    /// Forgets a client whose connection closed.
    pub fn remove(&mut self, id: ClientId)
        ensures
            final(self)@ == old(self)@.remove(id),
            final(self).next_fresh() == old(self).next_fresh(),
    {
        let _ = self.take_client(id);
    }

    /// The recorded clients in increasing id order, without pruning.
    fn listing(&self) -> (r: Vec<ClientInfo>)
        ensures
            is_listing(self@, r@),
    {
        proof {
            use_type_invariant(self);
        }
        let sorted = self.sorted_ids();
        let mut out: Vec<ClientInfo> = Vec::new();
        let mut j: usize = 0;
        while j < sorted.len()
            invariant
                0 <= j <= sorted.len(),
                strictly_increasing(sorted@),
                sorted@.to_set() == self.clients@.dom(),
                forall|k: ClientId| #[trigger]
                    self.clients@.contains_key(k) ==> self.clients@[k].id == k,
                out@.len() == j,
                forall|a: int| 0 <= a < j ==> #[trigger] out@[a] == self.clients@[sorted@[a]],
                forall|a: int| 0 <= a < j ==> out@[a].id == sorted@[a],
            decreases sorted.len() - j,
        {
            let id = sorted[j];
            assert(sorted@.to_set().contains(id));
            match self.clients.get(&id) {
                Some(client) => {
                    out.push(client.copy_info());
                },
                None => {
                    assert(false);
                },
            }
            j = j + 1;
        }
        assert forall|k: ClientId| #[trigger]
            self@.contains_key(k) implies exists|a: int| 0 <= a < out@.len() && out@[a].id == k by {
            assert(sorted@.to_set().contains(k));
            let a = choose|a: int| 0 <= a < sorted@.len() && sorted@[a] == k;
            assert(out@[a].id == k);
        }
        assert forall|a: int| 0 <= a < out@.len() implies self@.contains_key(#[trigger] out@[a].id)
            && self@[out@[a].id] == out@[a] by {
            assert(sorted@.to_set().contains(sorted@[a]));
        }
        out
    }

    /// The clients that survive pruning at time `now`, in increasing id
    /// order. Stale clients are forgotten as a side effect.
    pub fn clients_at(&mut self, now: u64) -> (r: Vec<ClientInfo>)
        ensures
            final(self)@ == retained(old(self)@, now),
            final(self).next_fresh() == old(self).next_fresh(),
            is_listing(final(self)@, r@),
    {
        self.prune_stale_at(now);
        self.listing()
    }

    /// The current clients in increasing id order, after pruning stale ones.
    pub fn clients(&mut self) -> (r: Vec<ClientInfo>)
        ensures
            exists|now: u64| final(self)@ == retained(#[trigger] old(self)@, now),
            final(self).next_fresh() == old(self).next_fresh(),
            is_listing(final(self)@, r@),
    {
        self.prune_stale();
        self.listing()
    }

    /// The number of clients with a live subscription, which is what callers
    /// mean when they ask whether Studio is connected.
    pub fn subscribed_count(&self) -> (n: usize)
        ensures
            n == subscribed_ids(self@).len(),
    {
        let ids = self.client_ids();
        let ghost m = self.clients@;
        let ghost p = |k: ClientId| m[k].subscribed;
        let mut count: usize = 0;
        let mut i: usize = 0;
        proof {
            assert(ids@.take(0).to_set() =~= Set::<ClientId>::empty());
            assert(ids@.take(0).to_set().filter(p) =~= Set::<ClientId>::empty());
        }
        while i < ids.len()
            invariant
                0 <= i <= ids.len(),
                m == self.clients@,
                ids@.no_duplicates(),
                ids@.to_set() == m.dom(),
                p == (|k: ClientId| m[k].subscribed),
                count == ids@.take(i as int).to_set().filter(p).len(),
                count <= i,
            decreases ids.len() - i,
        {
            let id = ids[i];
            let ghost before = ids@.take(i as int).to_set();
            assert(ids@.take(i + 1) =~= ids@.take(i as int).push(id));
            proof {
                ids@.take(i as int).lemma_push_to_set_commute(id);
            }
            assert(!ids@.take(i as int).contains(id));
            assert(!before.contains(id));
            proof {
                vstd::seq_lib::seq_to_set_is_finite(ids@.take(i as int));
            }
            assert(m.contains_key(id)) by {
                assert(ids@.to_set().contains(id));
            }
            let subscribed = match self.clients.get(&id) {
                Some(client) => client.subscribed,
                None => false,
            };
            if subscribed {
                assert(before.insert(id).filter(p) =~= before.filter(p).insert(id));
                count = count + 1;
            } else {
                assert(before.insert(id).filter(p) =~= before.filter(p));
            }
            i = i + 1;
        }
        assert(ids@.take(ids@.len() as int) =~= ids@);
        assert(ids@.to_set().filter(p) =~= subscribed_ids(self@));
        count
    }
}

// ---------------------------------------------------------------------------
// Laws
// ---------------------------------------------------------------------------

/// Pruning never forgets a subscribed client, whatever the time: subscribers
/// leave only when their connection closes.
pub proof fn lemma_pruning_keeps_subscribers(m: Map<ClientId, ClientInfo>, now: u64)
    ensures
        subscribed_ids(retained(m, now)) == subscribed_ids(m),
        forall|k: ClientId| #[trigger] m.contains_key(k) && m[k].subscribed ==> retained(m, now).contains_key(k),
{
    assert(subscribed_ids(retained(m, now)) =~= subscribed_ids(m));
}

/// A client survives pruning exactly when it is subscribed or has been idle
/// for less than the TTL, and survivors are unchanged.
pub proof fn lemma_pruning_forgets_only_stale_probes(m: Map<ClientId, ClientInfo>, now: u64, k: ClientId)
    ensures
        retained(m, now).contains_key(k) <==> m.contains_key(k) && (m[k].subscribed || idle_secs(m[k], now)
            < UNSUBSCRIBED_TTL_SECS),
        retained(m, now).contains_key(k) ==> retained(m, now)[k] == m[k],
{
}

/// Pruning twice at the same time prunes nothing more.
pub proof fn lemma_pruning_is_idempotent(m: Map<ClientId, ClientInfo>, now: u64)
    ensures
        retained(retained(m, now), now) == retained(m, now),
{
    assert(retained(retained(m, now), now) =~= retained(m, now));
}

/// A handshake alone is not a live sync: recording a fresh, unsubscribed
/// client leaves the set of subscribed clients as pruning left it.
pub proof fn lemma_handshake_adds_no_subscriber(
    m: Map<ClientId, ClientInfo>,
    now: u64,
    id: ClientId,
    c: ClientInfo,
)
    requires
        !c.subscribed,
    ensures
        subscribed_ids(retained(m, now).insert(id, c)) == subscribed_ids(m).remove(id),
{
    assert(subscribed_ids(retained(m, now).insert(id, c)) =~= subscribed_ids(m).remove(id));
}

/// Subscribing a client adds exactly that client to the subscribed set, and
/// unsubscribing removes exactly it, whether or not it handshook.
pub proof fn lemma_subscription_counts_exactly_one(
    before: Map<ClientId, ClientInfo>,
    after: Map<ClientId, ClientInfo>,
    id: ClientId,
    subscribed: bool,
    now: u64,
)
    requires
        marks(before, after, id, subscribed, now),
    ensures
        subscribed ==> subscribed_ids(after) == subscribed_ids(before).insert(id),
        !subscribed ==> subscribed_ids(after) == subscribed_ids(before).remove(id),
        before.dom().finite() && subscribed && !subscribed_ids(before).contains(id) ==> subscribed_ids(
            after,
        ).len() == subscribed_ids(before).len() + 1,
        before.dom().finite() && !subscribed && subscribed_ids(before).contains(id) ==> subscribed_ids(
            after,
        ).len() == subscribed_ids(before).len() - 1,
{
    assert(after[id].subscribed == subscribed);
    if before.dom().finite() {
        before.dom().lemma_len_filter(|k: ClientId| before[k].subscribed);
    }
    if subscribed {
        assert(subscribed_ids(after) =~= subscribed_ids(before).insert(id));
    } else {
        assert(subscribed_ids(after) =~= subscribed_ids(before).remove(id));
    }
}

/// Marking a client (un)subscribed makes it known and keeps every other
/// client as it was; touching never changes the set of known clients.
pub proof fn lemma_activity_keeps_membership(
    before: Map<ClientId, ClientInfo>,
    after: Map<ClientId, ClientInfo>,
    id: ClientId,
    subscribed: bool,
    now: u64,
)
    requires
        marks(before, after, id, subscribed, now),
    ensures
        after.dom() == before.dom().insert(id),
        forall|k: ClientId| k != id && #[trigger] before.contains_key(k) ==> after[k] == before[k],
        touched(before, id, now).dom() == before.dom(),
{
    assert(after.dom() =~= before.dom().insert(id));
    assert(touched(before, id, now).dom() =~= before.dom());
}

/// A registry holds finitely many clients.
pub proof fn lemma_registry_is_finite(r: ClientRegistry)
    ensures
        r@.dom().finite(),
{
    assert(r@ == r.clients@);
}

/// Filtering a sequence of clients in increasing id order keeps that order.
proof fn lemma_filter_keeps_id_order(v: Seq<ClientInfo>, pred: spec_fn(ClientInfo) -> bool)
    requires
        forall|i: int, j: int| 0 <= i < j < v.len() ==> v[i].id < v[j].id,
    ensures
        forall|i: int, j: int| 0 <= i < j < v.filter(pred).len() ==> v.filter(pred)[i].id < v.filter(pred)[j].id,
    decreases v.len(),
{
    if v.len() > 0 {
        let w = v.drop_last();
        let x = v.last();
        lemma_filter_keeps_id_order(w, pred);
        assert(v =~= w.push(x));
        w.lemma_filter_push(x, pred);
        if pred(x) {
            let f = w.filter(pred);
            assert forall|i: int| 0 <= i < f.len() implies f[i].id < x.id by {
                assert(f.contains(f[i]));
                w.lemma_filter_contains_rev(pred, f[i]);
                let a = choose|a: int| 0 <= a < w.len() && w[a] == f[i];
                assert(v[a] == w[a]);
            }
            let g = f.push(x);
            assert forall|i: int, j: int| 0 <= i < j < g.len() implies g[i].id < g[j].id by {
                if j < f.len() {
                } else {
                    assert(g[i] == f[i]);
                }
            }
        }
    }
}

/// The subscribed count is the number of subscribed clients a listing shows:
/// connected means a live subscription, not a handshake.
pub proof fn lemma_count_matches_listing(m: Map<ClientId, ClientInfo>, v: Seq<ClientInfo>)
    requires
        m.dom().finite(),
        is_listing(m, v),
    ensures
        subscribed_ids(m).len() == v.filter(|c: ClientInfo| c.subscribed).len(),
{
    let pred = |c: ClientInfo| c.subscribed;
    let f = v.filter(pred);
    let ids = f.map_values(|c: ClientInfo| c.id);
    broadcast use vstd::seq_lib::group_filter_ensures;
    lemma_filter_keeps_id_order(v, pred);
    assert forall|i: int, j: int| 0 <= i < ids.len() && 0 <= j < ids.len() && i != j implies ids[i] != ids[j] by {
        if i < j {
            assert(f[i].id < f[j].id);
        } else {
            assert(f[j].id < f[i].id);
        }
    }
    assert forall|k: ClientId| ids.to_set().contains(k) <==> subscribed_ids(m).contains(k) by {
        if ids.to_set().contains(k) {
            let i = choose|i: int| 0 <= i < ids.len() && ids[i] == k;
            assert(f.contains(f[i]));
            v.lemma_filter_contains_rev(pred, f[i]);
            let a = choose|a: int| 0 <= a < v.len() && v[a] == f[i];
            assert(m.contains_key(v[a].id) && m[v[a].id] == v[a]);
        }
        if subscribed_ids(m).contains(k) {
            let a = choose|a: int| 0 <= a < v.len() && v[a].id == k;
            assert(m[v[a].id] == v[a]);
            v.lemma_filter_contains(pred, a);
            assert(f.contains(v[a]));
            let i = choose|i: int| 0 <= i < f.len() && f[i] == v[a];
            assert(ids[i] == k);
        }
    }
    assert(ids.to_set() =~= subscribed_ids(m));
    ids.unique_seq_to_set();
}

/// Removing a client that a handshake just recorded under a fresh id undoes
/// the record: the registry is left as pruning left it.
pub proof fn lemma_remove_undoes_handshake(
    m: Map<ClientId, ClientInfo>,
    now: u64,
    id: ClientId,
    c: ClientInfo,
)
    requires
        !m.contains_key(id),
    ensures
        retained(m, now).insert(id, c).remove(id) == retained(m, now),
{
    assert(retained(m, now).insert(id, c).remove(id) =~= retained(m, now));
}


/// A listing names each client once: no two entries share an id, and it has
/// exactly as many entries as there are clients.
pub proof fn lemma_listing_is_exact(m: Map<ClientId, ClientInfo>, v: Seq<ClientInfo>)
    requires
        m.dom().finite(),
        is_listing(m, v),
    ensures
        v.len() == m.len(),
        v.map_values(|c: ClientInfo| c.id).to_set() == m.dom(),
{
    let ids = v.map_values(|c: ClientInfo| c.id);
    assert forall|i: int, j: int| 0 <= i < ids.len() && 0 <= j < ids.len() && i != j implies ids[i] != ids[j] by {
        if i < j {
            assert(v[i].id < v[j].id);
        } else {
            assert(v[j].id < v[i].id);
        }
    }
    assert(ids.no_duplicates());
    assert forall|k: ClientId| ids.to_set().contains(k) <==> m.dom().contains(k) by {
        if m.contains_key(k) {
            let i = choose|i: int| 0 <= i < v.len() && v[i].id == k;
            assert(ids[i] == k);
        }
        if ids.to_set().contains(k) {
            let i = choose|i: int| 0 <= i < ids.len() && ids[i] == k;
            assert(m.contains_key(v[i].id));
        }
    }
    assert(ids.to_set() =~= m.dom());
    ids.unique_seq_to_set();
}

} // verus!
