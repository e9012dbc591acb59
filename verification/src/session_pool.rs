//! The pool of headless SSH connections kept for MCP tool calls.
//!
//! A connection is looked up by asset id. It is reused only when the asset's
//! credential references are those it was opened with (a changed password or
//! key invalidates it) and it was used within the last five minutes; each use
//! renews it. At most `MAX_CONNECTIONS` are kept, the least recently used
//! going first. Whether a pooled connection is still open is asked of the SSH
//! library by the caller, which then invalidates a dead one.
use vstd::prelude::*;

use crate::auth::opt_view;
use crate::execution_log::{now_ms, sat_sub};
use crate::job_store::{first_min, first_min_index, lemma_first_min};
use crate::text::same_text;

verus! {

/// How an asset authenticates.
#[derive(Debug, Clone, Copy, PartialEq, Eq, Structural)]
pub enum AuthMethod {
    Password,
    PrivateKey,
    Agent,
}

pub open spec fn auth_method_name(m: AuthMethod) -> Seq<char> {
    match m {
        AuthMethod::Password => "Password"@,
        AuthMethod::PrivateKey => "PrivateKey"@,
        AuthMethod::Agent => "Agent"@,
    }
}

impl AuthMethod {
    /// The method's name, as the connection parameters carry it.
    pub fn name(&self) -> (r: &'static str)
        ensures
            r@ == auth_method_name(*self),
    {
        match self {
            AuthMethod::Password => "Password",
            AuthMethod::PrivateKey => "PrivateKey",
            AuthMethod::Agent => "Agent",
        }
    }
}

/// The connection state shown for an asset.
#[derive(Debug, Clone, Copy, PartialEq, Eq, Structural)]
pub enum ConnectionStatus {
    Idle,
    Connected,
}

/// A saved connection asset.
#[derive(Debug, Clone)]
pub struct ConnectionAsset {
    pub id: String,
    pub name: String,
    pub host: String,
    pub port: u16,
    pub username: String,
    pub auth_method: AuthMethod,
    pub private_key_path: Option<String>,
    pub group: String,
    pub tags: Vec<String>,
    pub status: ConnectionStatus,
    pub last_connected: String,
    pub credential_id: Option<String>,
    pub passphrase_credential_id: Option<String>,
    pub private_key_credential_id: Option<String>,
    pub jump_host: Option<String>,
    pub connect_timeout_secs: Option<u32>,
    pub keepalive_interval_secs: Option<u32>,
}

/// The credential references a pooled connection was opened with.
#[derive(Debug, Clone, PartialEq, Eq, Default)]
pub struct AuthSnapshot {
    pub credential_id: Option<String>,
    pub private_key_path: Option<String>,
    pub private_key_credential_id: Option<String>,
    pub passphrase_credential_id: Option<String>,
}

pub open spec fn auth_view(a: AuthSnapshot) -> (
    Option<Seq<char>>,
    Option<Seq<char>>,
    Option<Seq<char>>,
    Option<Seq<char>>,
) {
    (
        opt_view(a.credential_id),
        opt_view(a.private_key_path),
        opt_view(a.private_key_credential_id),
        opt_view(a.passphrase_credential_id),
    )
}

fn clone_text(o: &Option<String>) -> (r: Option<String>)
    ensures
        r == *o,
{
    match o {
        Some(s) => Some(s.clone()),
        None => None,
    }
}

fn same_opt_text(a: &Option<String>, b: &Option<String>) -> (r: bool)
    ensures
        r == (opt_view(*a) == opt_view(*b)),
{
    match (a, b) {
        (Some(x), Some(y)) => same_text(x.as_str(), y.as_str()),
        (None, None) => true,
        _ => false,
    }
}

impl AuthSnapshot {
    /// The credential references of `asset`.
    pub fn from_asset(asset: &ConnectionAsset) -> (s: Self)
        ensures
            s.credential_id == asset.credential_id,
            s.private_key_path == asset.private_key_path,
            s.private_key_credential_id == asset.private_key_credential_id,
            s.passphrase_credential_id == asset.passphrase_credential_id,
    {
        AuthSnapshot {
            credential_id: clone_text(&asset.credential_id),
            private_key_path: clone_text(&asset.private_key_path),
            private_key_credential_id: clone_text(&asset.private_key_credential_id),
            passphrase_credential_id: clone_text(&asset.passphrase_credential_id),
        }
    }

    /// Whether the two snapshots name the same credentials.
    pub fn same_as(&self, other: &AuthSnapshot) -> (r: bool)
        ensures
            r == (auth_view(*self) == auth_view(*other)),
    {
        same_opt_text(&self.credential_id, &other.credential_id) && same_opt_text(
            &self.private_key_path,
            &other.private_key_path,
        ) && same_opt_text(&self.private_key_credential_id, &other.private_key_credential_id)
            && same_opt_text(&self.passphrase_credential_id, &other.passphrase_credential_id)
    }
}

/// At most this many connections are pooled.
pub const MAX_CONNECTIONS: usize = 8;

/// A pooled connection unused for this long (5 minutes) is dropped.
pub const IDLE_TTL_MS: u64 = 300000;

/// A pooled connection `handle` for one asset.
pub struct PoolEntry<H> {
    pub asset_id: String,
    pub handle: H,
    pub auth: AuthSnapshot,
    pub last_used_ms: u64,
}

/// The pooled connections.
pub struct SessionPool<H> {
    entries: Vec<PoolEntry<H>>,
}

impl<H> View for SessionPool<H> {
    type V = Seq<PoolEntry<H>>;

    closed spec fn view(&self) -> Seq<PoolEntry<H>> {
        self.entries@
    }
}

pub open spec fn idle_alive<H>(e: PoolEntry<H>, now: u64) -> bool {
    sat_sub(now, e.last_used_ms) < IDLE_TTL_MS
}

/// The connections used within `IDLE_TTL_MS` before `now`, in order.
pub open spec fn live_connections<H>(s: Seq<PoolEntry<H>>, now: u64) -> Seq<PoolEntry<H>>
    decreases s.len(),
{
    if s.len() == 0 {
        Seq::<PoolEntry<H>>::empty()
    } else {
        let p = live_connections(s.drop_last(), now);
        if idle_alive(s.last(), now) {
            p.push(s.last())
        } else {
            p
        }
    }
}

pub open spec fn use_times<H>(s: Seq<PoolEntry<H>>) -> Seq<u64> {
    Seq::new(s.len(), |k: int| s[k].last_used_ms)
}

/// Drops the least recently used connection while `MAX_CONNECTIONS` or more are kept.
pub open spec fn evict_idlest<H>(s: Seq<PoolEntry<H>>) -> Seq<PoolEntry<H>>
    decreases s.len(),
{
    if s.len() >= MAX_CONNECTIONS && 0 <= first_min(use_times(s)) < s.len() {
        evict_idlest(s.remove(first_min(use_times(s))))
    } else {
        s
    }
}

proof fn lemma_evict_idlest_len<H>(s: Seq<PoolEntry<H>>)
    ensures
        evict_idlest(s).len() < MAX_CONNECTIONS,
    decreases s.len(),
{
    if s.len() >= MAX_CONNECTIONS {
        lemma_first_min(use_times(s));
        lemma_evict_idlest_len(s.remove(first_min(use_times(s))));
    }
}

/// Position of the first connection for `id`.
pub open spec fn slot_of<H>(s: Seq<PoolEntry<H>>, id: Seq<char>) -> Option<int>
    decreases s.len(),
{
    if s.len() == 0 {
        None
    } else if s[0].asset_id@ == id {
        Some(0)
    } else {
        match slot_of(s.drop_first(), id) {
            Some(i) => Some(i + 1),
            None => None,
        }
    }
}

proof fn lemma_slot<H>(s: Seq<PoolEntry<H>>, id: Seq<char>, i: int)
    requires
        0 <= i <= s.len(),
        forall|j: int| 0 <= j < i ==> (#[trigger] s[j]).asset_id@ != id,
        i < s.len() ==> s[i].asset_id@ == id,
    ensures
        slot_of(s, id) == (if i < s.len() {
            Some(i)
        } else {
            None::<int>
        }),
    decreases s.len(),
{
    if s.len() > 0 && i > 0 {
        let t = s.drop_first();
        assert forall|j: int| 0 <= j < i - 1 implies (#[trigger] t[j]).asset_id@ != id by {
            assert(t[j] == s[j + 1]);
        }
        lemma_slot(t, id, i - 1);
    }
}

proof fn lemma_slot_shape<H>(s: Seq<PoolEntry<H>>, id: Seq<char>)
    ensures
        match slot_of(s, id) {
            Some(i) => 0 <= i < s.len() && s[i].asset_id@ == id && forall|j: int|
                0 <= j < i ==> (#[trigger] s[j]).asset_id@ != id,
            None => forall|j: int| 0 <= j < s.len() ==> (#[trigger] s[j]).asset_id@ != id,
        },
    decreases s.len(),
{
    if s.len() > 0 {
        let t = s.drop_first();
        lemma_slot_shape(t, id);
        assert forall|j: int| 1 <= j < s.len() implies s[j] == #[trigger] t[j - 1] by {}
        if s[0].asset_id@ != id {
            match slot_of(t, id) {
                Some(i) => {
                    assert forall|j: int| 0 <= j < i + 1 implies (#[trigger] s[j]).asset_id@
                        != id by {
                        if j > 0 {
                            assert(s[j] == t[j - 1]);
                        }
                    }
                },
                None => {
                    assert forall|j: int| 0 <= j < s.len() implies (#[trigger] s[j]).asset_id@
                        != id by {
                        if j > 0 {
                            assert(s[j] == t[j - 1]);
                        }
                    }
                },
            }
        }
    }
}

/// What pooling `handle` for `asset_id` at `now` makes of the connections
/// `s`: idle ones are dropped, the least recently used are evicted below
/// `MAX_CONNECTIONS`, then the new entry replaces the asset's old one or is
/// appended.
pub open spec fn pooled<H>(
    s: Seq<PoolEntry<H>>,
    t: Seq<PoolEntry<H>>,
    entry: PoolEntry<H>,
    now: u64,
) -> bool {
    let e = evict_idlest(live_connections(s, now));
    &&& entry.last_used_ms == now
    &&& match slot_of(e, entry.asset_id@) {
        Some(i) => t.len() == e.len() && t[i] == entry && forall|j: int|
            0 <= j < e.len() && j != i ==> #[trigger] t[j] == e[j],
        None => t.len() == e.len() + 1 && t.take(e.len() as int) == e && t.last() == entry,
    }
}

/// What looking up `asset_id` with credentials `auth` at `now` makes of the
/// connections `s`, and what it hands out: idle connections are dropped; a
/// connection with the same credentials is renewed and handed out; one with
/// other credentials is dropped and nothing is handed out.
pub open spec fn checked_out<H>(
    s: Seq<PoolEntry<H>>,
    id: Seq<char>,
    auth: AuthSnapshot,
    now: u64,
    r: Option<H>,
    t: Seq<PoolEntry<H>>,
) -> bool {
    let e = live_connections(s, now);
    match slot_of(e, id) {
        None => r is None && t == e,
        Some(i) => if auth_view(e[i].auth) == auth_view(auth) {
            &&& r == Some(e[i].handle)
            &&& t.len() == e.len()
            &&& t[i] == PoolEntry { last_used_ms: now, ..e[i] }
            &&& forall|j: int| 0 <= j < e.len() && j != i ==> #[trigger] t[j] == e[j]
        } else {
            r is None && t == e.remove(i)
        },
    }
}

pub open spec fn deref_opt<H>(r: Option<&H>) -> Option<H> {
    match r {
        Some(h) => Some(*h),
        None => None,
    }
}

fn find_slot<H>(v: &Vec<PoolEntry<H>>, id: &str) -> (r: Option<usize>)
    ensures
        match r {
            Some(i) => slot_of(v@, id@) == Some(i as int) && i < v@.len(),
            None => slot_of(v@, id@) is None,
        },
{
    let mut i: usize = 0;
    while i < v.len()
        invariant
            i <= v@.len(),
            forall|j: int| 0 <= j < i ==> (#[trigger] v@[j]).asset_id@ != id@,
        decreases v.len() - i,
    {
        if same_text(v[i].asset_id.as_str(), id) {
            proof {
                lemma_slot(v@, id@, i as int);
            }
            return Some(i);
        }
        i += 1;
    }
    proof {
        lemma_slot(v@, id@, v@.len() as int);
    }
    None
}

/// Keeps the connections used within `IDLE_TTL_MS` before `now`.
fn keep_live<H>(v: Vec<PoolEntry<H>>, now: u64) -> (r: Vec<PoolEntry<H>>)
    ensures
        r@ == live_connections(v@, now),
{
    let ghost orig = v@;
    let mut kept: Vec<PoolEntry<H>> = Vec::new();
    for e in it: v.into_iter()
        invariant
            it.seq() == orig,
            kept@ == live_connections(orig.take(it.index() as int), now),
    {
        proof {
            let i = it.index() as int;
            assert(orig.take(i + 1).drop_last() =~= orig.take(i));
            assert(orig.take(i + 1).last() == e);
        }
        if now.saturating_sub(e.last_used_ms) < IDLE_TTL_MS {
            kept.push(e);
        }
    }
    proof {
        assert(orig.take(orig.len() as int) =~= orig);
    }
    kept
}

proof fn lemma_live_ids<H>(s: Seq<PoolEntry<H>>, id: Seq<char>, now: u64)
    requires
        forall|j: int| 0 <= j < s.len() ==> (#[trigger] s[j]).asset_id@ != id,
    ensures
        forall|k: int|
            0 <= k < live_connections(s, now).len() ==> (#[trigger] live_connections(
                s,
                now,
            )[k]).asset_id@ != id,
    decreases s.len(),
{
    if s.len() > 0 {
        let d = s.drop_last();
        assert forall|j: int| 0 <= j < d.len() implies (#[trigger] d[j]).asset_id@ != id by {
            assert(d[j] == s[j]);
        }
        lemma_live_ids(d, id, now);
        let p = live_connections(d, now);
        assert forall|k: int| 0 <= k < live_connections(s, now).len() implies (
        #[trigger] live_connections(s, now)[k]).asset_id@ != id by {
            if k < p.len() {
                assert(live_connections(s, now)[k] == p[k]);
            }
        }
    }
}

/// The first live connection for `id` is the first connection for `id`, when
/// that one is live.
proof fn lemma_live_slot<H>(s: Seq<PoolEntry<H>>, id: Seq<char>, i: int, now: u64)
    requires
        0 <= i < s.len(),
        s[i].asset_id@ == id,
        idle_alive(s[i], now),
        forall|j: int| 0 <= j < i ==> (#[trigger] s[j]).asset_id@ != id,
    ensures
        slot_of(live_connections(s, now), id) matches Some(k) && 0 <= k < live_connections(
            s,
            now,
        ).len() && live_connections(s, now)[k] == s[i],
    decreases s.len(),
{
    let d = s.drop_last();
    let p = live_connections(d, now);
    let l = live_connections(s, now);
    if i == s.len() - 1 {
        assert forall|j: int| 0 <= j < d.len() implies (#[trigger] d[j]).asset_id@ != id by {
            assert(d[j] == s[j]);
        }
        lemma_live_ids(d, id, now);
        assert(l == p.push(s[i]));
        assert forall|j: int| 0 <= j < p.len() implies (#[trigger] l[j]).asset_id@ != id by {
            assert(l[j] == p[j]);
        }
        lemma_slot(l, id, p.len() as int);
    } else {
        assert forall|j: int| 0 <= j < i implies (#[trigger] d[j]).asset_id@ != id by {
            assert(d[j] == s[j]);
        }
        lemma_live_slot(d, id, i, now);
        let k = slot_of(p, id)->0;
        lemma_slot_shape(p, id);
        assert forall|j: int| 0 <= j < k implies (#[trigger] l[j]).asset_id@ != id by {
            assert(l[j] == p[j]);
        }
        assert(l[k] == p[k]);
        lemma_slot(l, id, k);
    }
}

/// The connection just pooled is the first one for its asset.
proof fn lemma_pooled_slot<H>(s: Seq<PoolEntry<H>>, t: Seq<PoolEntry<H>>, entry: PoolEntry<H>, now: u64)
    requires
        pooled(s, t, entry, now),
    ensures
        slot_of(t, entry.asset_id@) matches Some(i) && 0 <= i < t.len() && t[i] == entry,
{
    let e = evict_idlest(live_connections(s, now));
    let id = entry.asset_id@;
    lemma_slot_shape(e, id);
    match slot_of(e, id) {
        Some(i) => {
            assert forall|j: int| 0 <= j < i implies (#[trigger] t[j]).asset_id@ != id by {
                assert(t[j] == e[j]);
            }
            lemma_slot(t, id, i);
        },
        None => {
            assert forall|j: int| 0 <= j < e.len() implies (#[trigger] t[j]).asset_id@ != id by {
                assert(t[j] == t.take(e.len() as int)[j]);
            }
            lemma_slot(t, id, e.len() as int);
        },
    }
}

/// Law: a connection pooled for an asset is handed back by a lookup with the
/// same credentials within the idle lifetime.
pub proof fn lemma_pooled_connection_reused<H>(
    s: Seq<PoolEntry<H>>,
    t: Seq<PoolEntry<H>>,
    entry: PoolEntry<H>,
    now: u64,
    auth: AuthSnapshot,
    later: u64,
    r: Option<H>,
    u: Seq<PoolEntry<H>>,
)
    requires
        pooled(s, t, entry, now),
        auth_view(auth) == auth_view(entry.auth),
        sat_sub(later, now) < IDLE_TTL_MS,
        checked_out(t, entry.asset_id@, auth, later, r, u),
    ensures
        r == Some(entry.handle),
{
    lemma_pooled_slot(s, t, entry, now);
    let i = slot_of(t, entry.asset_id@)->0;
    lemma_slot_shape(t, entry.asset_id@);
    lemma_live_slot(t, entry.asset_id@, i, later);
}

/// Law: a lookup with other credentials than those a live connection was
/// pooled with hands out nothing and drops that connection.
pub proof fn lemma_changed_credentials_refused<H>(
    s: Seq<PoolEntry<H>>,
    t: Seq<PoolEntry<H>>,
    entry: PoolEntry<H>,
    now: u64,
    auth: AuthSnapshot,
    later: u64,
    r: Option<H>,
    u: Seq<PoolEntry<H>>,
)
    requires
        pooled(s, t, entry, now),
        auth_view(auth) != auth_view(entry.auth),
        sat_sub(later, now) < IDLE_TTL_MS,
        checked_out(t, entry.asset_id@, auth, later, r, u),
    ensures
        r is None,
        u.len() + 1 == live_connections(t, later).len(),
{
    lemma_pooled_slot(s, t, entry, now);
    let i = slot_of(t, entry.asset_id@)->0;
    lemma_slot_shape(t, entry.asset_id@);
    lemma_live_slot(t, entry.asset_id@, i, later);
}

/// Law: two snapshots name the same credentials exactly when all four of
/// their fields are equal: the credential id, the private-key path, the
/// private-key credential id and the passphrase credential id.
pub proof fn lemma_same_credentials_exact(a: AuthSnapshot, b: AuthSnapshot)
    ensures
        (auth_view(a) == auth_view(b)) <==> (opt_view(a.credential_id) == opt_view(b.credential_id)
            && opt_view(a.private_key_path) == opt_view(b.private_key_path) && opt_view(
            a.private_key_credential_id,
        ) == opt_view(b.private_key_credential_id) && opt_view(a.passphrase_credential_id)
            == opt_view(b.passphrase_credential_id)),
{
}

/// Law: a pooled connection is not handed out when the credentials asked
/// for differ from those it was opened with in any one field.
pub proof fn lemma_any_changed_field_refused<H>(
    s: Seq<PoolEntry<H>>,
    t: Seq<PoolEntry<H>>,
    entry: PoolEntry<H>,
    now: u64,
    auth: AuthSnapshot,
    later: u64,
    r: Option<H>,
    u: Seq<PoolEntry<H>>,
)
    requires
        pooled(s, t, entry, now),
        opt_view(auth.credential_id) != opt_view(entry.auth.credential_id) || opt_view(
            auth.private_key_path,
        ) != opt_view(entry.auth.private_key_path) || opt_view(auth.private_key_credential_id)
            != opt_view(entry.auth.private_key_credential_id) || opt_view(auth.passphrase_credential_id)
            != opt_view(entry.auth.passphrase_credential_id),
        sat_sub(later, now) < IDLE_TTL_MS,
        checked_out(t, entry.asset_id@, auth, later, r, u),
    ensures
        r is None,
{
    lemma_same_credentials_exact(auth, entry.auth);
    lemma_changed_credentials_refused(s, t, entry, now, auth, later, r, u);
}

/// Law: the pool never holds more than `MAX_CONNECTIONS` connections after a
/// connection is pooled.
pub proof fn lemma_pool_bounded<H>(s: Seq<PoolEntry<H>>, t: Seq<PoolEntry<H>>, entry: PoolEntry<H>, now: u64)
    requires
        pooled(s, t, entry, now),
    ensures
        t.len() <= MAX_CONNECTIONS,
{
    lemma_evict_idlest_len(live_connections(s, now));
}

impl<H> SessionPool<H> {
    /// The empty pool.
    pub fn new() -> (p: Self)
        ensures
            p@.len() == 0,
    {
        SessionPool { entries: Vec::new() }
    }

    /// The number of pooled connections.
    pub fn len(&self) -> (n: usize)
        ensures
            n == self@.len(),
    {
        self.entries.len()
    }

    /// Looks up the connection of `asset_id` at `now` (see `checked_out`).
    pub fn get_at(&mut self, asset_id: &str, auth: &AuthSnapshot, now: u64) -> (r: Option<&H>)
        ensures
            checked_out(old(self)@, asset_id@, *auth, now, deref_opt(r), final(self)@),
    {
        let mut all: Vec<PoolEntry<H>> = Vec::new();
        std::mem::swap(&mut all, &mut self.entries);
        let mut kept = keep_live(all, now);
        proof {
            lemma_slot_shape(kept@, asset_id@);
        }
        match find_slot(&kept, asset_id) {
            None => {
                self.entries = kept;
                None
            },
            Some(i) => {
                if kept[i].auth.same_as(auth) {
                    let mut e = kept.remove(i);
                    e.last_used_ms = now;
                    kept.insert(i, e);
                    self.entries = kept;
                    Some(&self.entries[i].handle)
                } else {
                    kept.remove(i);
                    self.entries = kept;
                    None
                }
            },
        }
    }

    /// Pools `handle` for `asset_id` at `now` (see `pooled`).
    pub fn put_at(&mut self, asset_id: String, auth: AuthSnapshot, handle: H, now: u64)
        ensures
            pooled(
                old(self)@,
                final(self)@,
                PoolEntry { asset_id, handle, auth, last_used_ms: now },
                now,
            ),
            final(self)@.len() <= MAX_CONNECTIONS,
    {
        let mut all: Vec<PoolEntry<H>> = Vec::new();
        std::mem::swap(&mut all, &mut self.entries);
        let mut kept = keep_live(all, now);
        let ghost live_seq = kept@;
        while kept.len() >= MAX_CONNECTIONS
            invariant
                evict_idlest(kept@) == evict_idlest(live_seq),
            decreases kept.len(),
        {
            let mut times: Vec<u64> = Vec::new();
            let mut k: usize = 0;
            while k < kept.len()
                invariant
                    k <= kept@.len(),
                    times@ =~= use_times(kept@).take(k as int),
                decreases kept.len() - k,
            {
                times.push(kept[k].last_used_ms);
                k += 1;
            }
            proof {
                assert(use_times(kept@).take(kept@.len() as int) =~= use_times(kept@));
                lemma_first_min(use_times(kept@));
            }
            let i = first_min_index(times.as_slice());
            let ghost before = kept@;
            kept.remove(i);
            proof {
                assert(kept@ =~= before.remove(i as int));
            }
        }
        proof {
            lemma_evict_idlest_len(live_seq);
        }
        let ghost ev = kept@;
        let entry = PoolEntry { asset_id, handle, auth, last_used_ms: now };
        proof {
            lemma_slot_shape(kept@, entry.asset_id@);
        }
        match find_slot(&kept, entry.asset_id.as_str()) {
            Some(i) => {
                kept.remove(i);
                kept.insert(i, entry);
            },
            None => {
                kept.push(entry);
                assert(kept@.take(ev.len() as int) =~= ev);
            },
        }
        self.entries = kept;
    }

    /// Looks up the connection of `asset_id` now: what `checked_out` says for
    /// the current time, whatever the clock reads.
    pub fn get(&mut self, asset_id: &str, auth: &AuthSnapshot) -> (r: Option<&H>)
        ensures
            exists|now: u64| checked_out(old(self)@, asset_id@, *auth, now, deref_opt(r), final(self)@),
    {
        let now = now_ms();
        self.get_at(asset_id, auth, now)
    }

    /// Pools `handle` for `asset_id`, stamped with the current time.
    pub fn put(&mut self, asset_id: String, auth: AuthSnapshot, handle: H)
        ensures
            exists|now: u64|
                pooled(
                    old(self)@,
                    final(self)@,
                    PoolEntry { asset_id, handle, auth, last_used_ms: now },
                    now,
                ),
            final(self)@.len() <= MAX_CONNECTIONS,
    {
        let now = now_ms();
        self.put_at(asset_id, auth, handle, now);
    }

    /// Drops the connection of `asset_id` (the asset was deleted or edited, or
    /// its connection is closed) and hands it back to be disconnected.
    pub fn invalidate_asset(&mut self, asset_id: &str) -> (r: Option<H>)
        ensures
            match slot_of(old(self)@, asset_id@) {
                None => r is None && final(self)@ == old(self)@,
                Some(i) => r == Some(old(self)@[i].handle) && final(self)@ == old(self)@.remove(i),
            },
    {
        proof {
            lemma_slot_shape(self@, asset_id@);
        }
        match find_slot(&self.entries, asset_id) {
            None => None,
            Some(i) => {
                let e = self.entries.remove(i);
                Some(e.handle)
            },
        }
    }
}

} // verus!
