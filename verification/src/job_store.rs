//! Long-running MCP jobs (`ssh_exec_async`): an in-memory store of jobs, each
//! with its status, exit code and an output ring buffer.
//!
//! Status machine: `Running → Done | Failed | Cancelled`. Jobs live 30 minutes
//! (a running job twice that long), expired jobs are dropped lazily when a job
//! is created, and at most 32 jobs are kept (the oldest goes first). A job's
//! output keeps its newest 8 MiB; the bytes dropped from its head are counted.
//! The connection handle and the completion channel of a job are held by the
//! application beside this store.
use vstd::prelude::*;

use crate::execution_log::{now_ms, sat_sub};
use crate::headless::ExecOnceOutput;
use crate::text::{chars_of, decode_lossy, push_str, same_text, slice_bytes, string_of, utf8_lossy};
use crate::tool_text::{exec_body, exec_body_text};
use vstd::utf8::encode_utf8;

verus! {

#[derive(Debug, Clone, Copy, PartialEq, Eq, Structural)]
pub enum JobStatus {
    Running,
    Done,
    Failed,
    Cancelled,
}

pub open spec fn status_name(s: JobStatus) -> Seq<char> {
    match s {
        JobStatus::Running => "running"@,
        JobStatus::Done => "done"@,
        JobStatus::Failed => "failed"@,
        JobStatus::Cancelled => "cancelled"@,
    }
}

impl JobStatus {
    pub fn as_str(self) -> (r: &'static str)
        ensures
            r@ == status_name(self),
    {
        match self {
            JobStatus::Running => "running",
            JobStatus::Done => "done",
            JobStatus::Failed => "failed",
            JobStatus::Cancelled => "cancelled",
        }
    }

    /// Every status but `Running` is final.
    pub fn is_terminal(self) -> (r: bool)
        ensures
            r == (self != JobStatus::Running),
    {
        match self {
            JobStatus::Running => false,
            _ => true,
        }
    }
}

/// Lifetime of a job, in milliseconds (30 minutes).
pub const JOB_TTL_MS: u64 = 1800000;

/// At most this many jobs are kept.
pub const MAX_JOBS: usize = 32;

/// Output kept per job (8 MiB; beyond it the head is dropped).
pub const JOB_OUTPUT_MAX_BYTES: usize = 8388608;

pub struct JobEntry {
    pub id: String,
    pub asset_id: String,
    pub status: JobStatus,
    pub exit_code: Option<u32>,
    /// stdout and stderr as they came, newest `JOB_OUTPUT_MAX_BYTES` bytes.
    pub output: Vec<u8>,
    /// Bytes dropped from the head of the output.
    pub dropped_head_bytes: u64,
    pub error: Option<String>,
    pub created_ms: u64,
    pub finished_ms: Option<u64>,
    pub cancel_requested: bool,
    /// Whether the job's one "done" notification was already given.
    pub done_notified: bool,
}

/// The status of a job without its output.
pub struct JobSnapshot {
    pub asset_id: String,
    pub status: JobStatus,
    pub exit_code: Option<u32>,
    pub error: Option<String>,
    pub output_bytes: u64,
    pub dropped_head_bytes: u64,
    pub created_ms: u64,
    pub finished_ms: Option<u64>,
    pub cancel_requested: bool,
}

/// The jobs, in the order they were registered.
pub struct JobStore {
    jobs: Vec<JobEntry>,
}

impl View for JobStore {
    type V = Seq<JobEntry>;

    closed spec fn view(&self) -> Seq<JobEntry> {
        self.jobs@
    }
}

// ─── retention and eviction ───

/// Index of the first smallest value of `t` (0 for an empty sequence).
pub open spec fn first_min(t: Seq<u64>) -> int
    decreases t.len(),
{
    if t.len() <= 1 {
        0
    } else {
        let k = first_min(t.drop_last());
        if t.last() < t[k] {
            t.len() - 1
        } else {
            k
        }
    }
}

pub proof fn lemma_first_min(t: Seq<u64>)
    requires
        t.len() > 0,
    ensures
        0 <= first_min(t) < t.len(),
        forall|j: int| 0 <= j < t.len() ==> t[first_min(t)] <= #[trigger] t[j],
        forall|j: int| 0 <= j < first_min(t) ==> t[first_min(t)] < #[trigger] t[j],
    decreases t.len(),
{
    if t.len() > 1 {
        let d = t.drop_last();
        lemma_first_min(d);
        assert forall|j: int| 0 <= j < d.len() implies #[trigger] d[j] == t[j] by {}
        let k = first_min(d);
        if t.last() < t[k] {
            assert forall|j: int| 0 <= j < t.len() - 1 implies t.last() < #[trigger] t[j] by {
                assert(d[k] <= d[j]);
            }
        } else {
            assert forall|j: int| 0 <= j < t.len() implies t[k] <= #[trigger] t[j] by {
                if j < t.len() - 1 {
                    assert(d[k] <= d[j]);
                }
            }
            assert forall|j: int| 0 <= j < k implies t[k] < #[trigger] t[j] by {
                assert(d[k] < d[j]);
            }
        }
    }
}

/// Index of the first smallest value of `t`.
pub fn first_min_index(t: &[u64]) -> (r: usize)
    requires
        t@.len() > 0,
    ensures
        r as int == first_min(t@),
{
    let mut best: usize = 0;
    let mut i: usize = 1;
    while i < t.len()
        invariant
            1 <= i <= t@.len(),
            best as int == first_min(t@.take(i as int)),
        decreases t.len() - i,
    {
        proof {
            let p = t@.take(i as int + 1);
            assert(p.drop_last() =~= t@.take(i as int));
            lemma_first_min(t@.take(i as int));
            assert(p[best as int] == t@[best as int]);
        }
        if t[i] < t[best] {
            best = i;
        }
        i += 1;
    }
    proof {
        assert(t@.take(t@.len() as int) =~= t@);
    }
    best
}

/// Creation times of the jobs.
pub open spec fn job_times(s: Seq<JobEntry>) -> Seq<u64> {
    Seq::new(s.len(), |k: int| s[k].created_ms)
}

/// A finished job lives `JOB_TTL_MS`; a running one twice that (a leak).
pub open spec fn job_alive(e: JobEntry, now: u64) -> bool {
    if e.status == JobStatus::Running {
        sat_sub(now, e.created_ms) < 2 * JOB_TTL_MS
    } else {
        sat_sub(now, e.created_ms) < JOB_TTL_MS
    }
}

/// The jobs still alive at `now`, in order.
pub open spec fn alive_jobs(s: Seq<JobEntry>, now: u64) -> Seq<JobEntry>
    decreases s.len(),
{
    if s.len() == 0 {
        Seq::<JobEntry>::empty()
    } else {
        let p = alive_jobs(s.drop_last(), now);
        if job_alive(s.last(), now) {
            p.push(s.last())
        } else {
            p
        }
    }
}

/// Drops the oldest job while `MAX_JOBS` or more are kept.
pub open spec fn evict_jobs(s: Seq<JobEntry>) -> Seq<JobEntry>
    decreases s.len(),
{
    if s.len() >= MAX_JOBS && 0 <= first_min(job_times(s)) < s.len() {
        evict_jobs(s.remove(first_min(job_times(s))))
    } else {
        s
    }
}

proof fn lemma_evict_jobs_len(s: Seq<JobEntry>)
    ensures
        evict_jobs(s).len() < MAX_JOBS,
    decreases s.len(),
{
    if s.len() >= MAX_JOBS {
        lemma_first_min(job_times(s));
        lemma_evict_jobs_len(s.remove(first_min(job_times(s))));
    }
}

/// Position of the first job with the given id.
pub open spec fn job_pos(s: Seq<JobEntry>, id: Seq<char>) -> Option<int>
    decreases s.len(),
{
    if s.len() == 0 {
        None
    } else if s[0].id@ == id {
        Some(0)
    } else {
        match job_pos(s.drop_first(), id) {
            Some(i) => Some(i + 1),
            None => None,
        }
    }
}

proof fn lemma_job_pos(s: Seq<JobEntry>, id: Seq<char>, i: int)
    requires
        0 <= i <= s.len(),
        forall|j: int| 0 <= j < i ==> (#[trigger] s[j]).id@ != id,
        i < s.len() ==> s[i].id@ == id,
    ensures
        job_pos(s, id) == (if i < s.len() {
            Some(i)
        } else {
            None::<int>
        }),
    decreases s.len(),
{
    if s.len() > 0 && i > 0 {
        let t = s.drop_first();
        assert forall|j: int| 0 <= j < i - 1 implies (#[trigger] t[j]).id@ != id by {
            assert(t[j] == s[j + 1]);
        }
        lemma_job_pos(t, id, i - 1);
    }
}

proof fn lemma_job_pos_shape(s: Seq<JobEntry>, id: Seq<char>)
    ensures
        match job_pos(s, id) {
            Some(i) => 0 <= i < s.len() && s[i].id@ == id && forall|j: int|
                0 <= j < i ==> (#[trigger] s[j]).id@ != id,
            None => forall|j: int| 0 <= j < s.len() ==> (#[trigger] s[j]).id@ != id,
        },
    decreases s.len(),
{
    if s.len() > 0 {
        let t = s.drop_first();
        lemma_job_pos_shape(t, id);
        assert forall|j: int| 1 <= j < s.len() implies s[j] == #[trigger] t[j - 1] by {}
        if s[0].id@ != id {
            match job_pos(t, id) {
                Some(i) => {
                    assert forall|j: int| 0 <= j < i + 1 implies (#[trigger] s[j]).id@ != id by {
                        if j > 0 {
                            assert(s[j] == t[j - 1]);
                        }
                    }
                },
                None => {
                    assert forall|j: int| 0 <= j < s.len() implies (#[trigger] s[j]).id@ != id by {
                        if j > 0 {
                            assert(s[j] == t[j - 1]);
                        }
                    }
                },
            }
        }
    }
}

/// A job just registered at `now`.
pub open spec fn fresh_job(e: JobEntry, id: Seq<char>, asset_id: Seq<char>, now: u64) -> bool {
    &&& e.id@ == id
    &&& e.asset_id@ == asset_id
    &&& e.status == JobStatus::Running
    &&& e.exit_code is None
    &&& e.output@.len() == 0
    &&& e.dropped_head_bytes == 0
    &&& e.error is None
    &&& e.created_ms == now
    &&& e.finished_ms is None
    &&& !e.cancel_requested
    &&& !e.done_notified
}

/// What settling job `id` makes of the jobs `s`: the job takes its final
/// status, exit code and error and a finish time, and is marked notified;
/// `notify` is whether this was its first settlement. An unknown id changes
/// nothing and notifies nothing.
pub open spec fn settled(
    s: Seq<JobEntry>,
    id: Seq<char>,
    status: JobStatus,
    exit_code: Option<u32>,
    error: Option<String>,
    notify: bool,
    t: Seq<JobEntry>,
) -> bool {
    match job_pos(s, id) {
        None => t == s && !notify,
        Some(i) => t[i].finished_ms is Some && notify == !s[i].done_notified && replaced_at(
            s,
            t,
            i,
            JobEntry {
                status,
                exit_code,
                error,
                finished_ms: t[i].finished_ms,
                done_notified: true,
                ..s[i]
            },
        ),
    }
}

/// `t` is `s` with the job at `i` replaced by `e`.
pub open spec fn replaced_at(s: Seq<JobEntry>, t: Seq<JobEntry>, i: int, e: JobEntry) -> bool {
    &&& t.len() == s.len()
    &&& t[i] == e
    &&& forall|j: int| 0 <= j < s.len() && j != i ==> #[trigger] t[j] == s[j]
}

/// What registering job `id` at `now` makes of the jobs `s`: expired jobs are
/// dropped, the oldest are evicted below `MAX_JOBS`, then the new job replaces
/// one with the same id or is appended.
pub open spec fn registered(
    s: Seq<JobEntry>,
    t: Seq<JobEntry>,
    id: Seq<char>,
    asset_id: Seq<char>,
    now: u64,
) -> bool {
    let e = evict_jobs(alive_jobs(s, now));
    match job_pos(e, id) {
        Some(i) => t.len() == e.len() && fresh_job(t[i], id, asset_id, now) && forall|j: int|
            0 <= j < e.len() && j != i ==> #[trigger] t[j] == e[j],
        None => t.len() == e.len() + 1 && t.take(e.len() as int) == e && fresh_job(
            t.last(),
            id,
            asset_id,
            now,
        ),
    }
}

// ─── unique ids ───

/// No two jobs share an id (the original keeps them in a map keyed by id).
pub open spec fn job_ids_unique(s: Seq<JobEntry>) -> bool {
    forall|i: int, j: int| #![trigger s[i], s[j]] 0 <= i < j < s.len() ==> s[i].id@ != s[j].id@
}

proof fn lemma_unique_replaced(s: Seq<JobEntry>, t: Seq<JobEntry>, i: int, e: JobEntry)
    requires
        job_ids_unique(s),
        0 <= i < s.len(),
        replaced_at(s, t, i, e),
        e.id@ == s[i].id@,
    ensures
        job_ids_unique(t),
{
    assert forall|a: int, b: int| #![trigger t[a], t[b]] 0 <= a < b < t.len() implies t[a].id@ != t[b].id@ by {
        assert(t[a].id@ == s[a].id@);
        assert(t[b].id@ == s[b].id@);
    }
}

proof fn lemma_alive_unique(s: Seq<JobEntry>, now: u64)
    requires
        job_ids_unique(s),
    ensures
        job_ids_unique(alive_jobs(s, now)),
        forall|k: int| 0 <= k < alive_jobs(s, now).len() ==> exists|m: int|
            0 <= m < s.len() && #[trigger] alive_jobs(s, now)[k] == s[m],
    decreases s.len(),
{
    if s.len() > 0 {
        let t = s.drop_last();
        assert(job_ids_unique(t)) by {
            assert forall|a: int, b: int| #![trigger t[a], t[b]] 0 <= a < b < t.len() implies t[a].id@ != t[b].id@ by {
                assert(t[a] == s[a] && t[b] == s[b]);
            }
        }
        lemma_alive_unique(t, now);
        let p = alive_jobs(t, now);
        let r = alive_jobs(s, now);
        assert forall|k: int| 0 <= k < p.len() implies exists|m: int|
            0 <= m < s.len() && #[trigger] p[k] == s[m] by {
            let m = choose|m: int| 0 <= m < t.len() && p[k] == t[m];
            assert(s[m] == t[m]);
        }
        if job_alive(s.last(), now) {
            assert(r == p.push(s.last()));
            assert forall|a: int, b: int| #![trigger r[a], r[b]] 0 <= a < b < r.len() implies r[a].id@ != r[b].id@ by {
                if b == p.len() {
                    let m = choose|m: int| 0 <= m < s.len() && p[a] == s[m];
                    assert(r[a] == p[a]);
                    assert(r[b] == s[s.len() - 1]);
                    if m == s.len() - 1 {
                        let m2 = choose|m2: int| 0 <= m2 < t.len() && p[a] == t[m2];
                        assert(s[m2] == t[m2]);
                    }
                } else {
                    assert(r[a] == p[a] && r[b] == p[b]);
                }
            }
            assert forall|k: int| 0 <= k < r.len() implies exists|m: int|
                0 <= m < s.len() && #[trigger] r[k] == s[m] by {
                if k == p.len() {
                    assert(r[k] == s[s.len() - 1]);
                } else {
                    assert(r[k] == p[k]);
                }
            }
        }
    }
}

proof fn lemma_remove_unique(s: Seq<JobEntry>, i: int)
    requires
        job_ids_unique(s),
        0 <= i < s.len(),
    ensures
        job_ids_unique(s.remove(i)),
{
    let t = s.remove(i);
    assert forall|a: int, b: int| #![trigger t[a], t[b]] 0 <= a < b < t.len() implies t[a].id@ != t[b].id@ by {
        let a2 = if a < i { a } else { a + 1 };
        let b2 = if b < i { b } else { b + 1 };
        assert(t[a] == s[a2] && t[b] == s[b2]);
    }
}

proof fn lemma_evict_unique(s: Seq<JobEntry>)
    requires
        job_ids_unique(s),
    ensures
        job_ids_unique(evict_jobs(s)),
    decreases s.len(),
{
    if s.len() >= MAX_JOBS && 0 <= first_min(job_times(s)) < s.len() {
        lemma_remove_unique(s, first_min(job_times(s)));
        lemma_evict_unique(s.remove(first_min(job_times(s))));
    }
}

/// Law: registering a job keeps the ids unique.
pub proof fn lemma_registered_unique(
    s: Seq<JobEntry>,
    t: Seq<JobEntry>,
    id: Seq<char>,
    asset_id: Seq<char>,
    now: u64,
)
    requires
        job_ids_unique(s),
        registered(s, t, id, asset_id, now),
    ensures
        job_ids_unique(t),
{
    lemma_alive_unique(s, now);
    let e = evict_jobs(alive_jobs(s, now));
    lemma_evict_unique(alive_jobs(s, now));
    lemma_job_pos_shape(e, id);
    match job_pos(e, id) {
        Some(i) => {
            assert forall|a: int, b: int| #![trigger t[a], t[b]] 0 <= a < b < t.len() implies t[a].id@ != t[b].id@ by {
                if a == i {
                    assert(t[b] == e[b]);
                } else if b == i {
                    assert(t[a] == e[a]);
                } else {
                    assert(t[a] == e[a] && t[b] == e[b]);
                }
            }
        },
        None => {
            assert forall|a: int, b: int| #![trigger t[a], t[b]] 0 <= a < b < t.len() implies t[a].id@ != t[b].id@ by {
                assert(t[a] == t.take(e.len() as int)[a]);
                if b < e.len() {
                    assert(t[b] == t.take(e.len() as int)[b]);
                } else {
                    assert(t[b] == t.last());
                }
            }
        },
    }
}

/// Law: settling a job keeps the ids unique.
pub proof fn lemma_settled_unique(
    s: Seq<JobEntry>,
    id: Seq<char>,
    status: JobStatus,
    exit_code: Option<u32>,
    error: Option<String>,
    notify: bool,
    t: Seq<JobEntry>,
)
    requires
        job_ids_unique(s),
        settled(s, id, status, exit_code, error, notify, t),
    ensures
        job_ids_unique(t),
{
    lemma_job_pos_shape(s, id);
    match job_pos(s, id) {
        None => {},
        Some(i) => {
            lemma_unique_replaced(s, t, i, t[i]);
        },
    }
}

/// Resolving ids: how many of `ids` name a job of `s`.
pub open spec fn n_resolving(s: Seq<JobEntry>, ids: Seq<Seq<char>>) -> nat
    decreases ids.len(),
{
    if ids.len() == 0 {
        0
    } else {
        n_resolving(s, ids.drop_last()) + if job_pos(s, ids.last()) is Some {
            1nat
        } else {
            0nat
        }
    }
}

/// How many of `ids` equal `x`.
pub open spec fn n_equal(x: Seq<char>, ids: Seq<Seq<char>>) -> nat
    decreases ids.len(),
{
    if ids.len() == 0 {
        0
    } else {
        n_equal(x, ids.drop_last()) + if ids.last() == x {
            1nat
        } else {
            0nat
        }
    }
}

pub open spec fn distinct_ids(ids: Seq<Seq<char>>) -> bool {
    forall|i: int, j: int| #![trigger ids[i], ids[j]] 0 <= i < j < ids.len() ==> ids[i] != ids[j]
}

proof fn lemma_n_equal_absent(x: Seq<char>, ids: Seq<Seq<char>>)
    requires
        forall|i: int| 0 <= i < ids.len() ==> #[trigger] ids[i] != x,
    ensures
        n_equal(x, ids) == 0,
    decreases ids.len(),
{
    if ids.len() > 0 {
        let t = ids.drop_last();
        assert forall|i: int| 0 <= i < t.len() implies #[trigger] t[i] != x by {
            assert(t[i] == ids[i]);
        }
        lemma_n_equal_absent(x, t);
        assert(ids[ids.len() - 1] != x);
    }
}

proof fn lemma_n_equal_at_most_one(x: Seq<char>, ids: Seq<Seq<char>>)
    requires
        distinct_ids(ids),
    ensures
        n_equal(x, ids) <= 1,
    decreases ids.len(),
{
    if ids.len() > 0 {
        let t = ids.drop_last();
        assert(distinct_ids(t)) by {
            assert forall|i: int, j: int| #![trigger t[i], t[j]] 0 <= i < j < t.len() implies t[i] != t[j] by {
                assert(t[i] == ids[i] && t[j] == ids[j]);
            }
        }
        lemma_n_equal_at_most_one(x, t);
        if ids.last() == x {
            assert forall|i: int| 0 <= i < t.len() implies #[trigger] t[i] != x by {
                assert(t[i] == ids[i]);
                assert(ids[ids.len() - 1] == x);
            }
            lemma_n_equal_absent(x, t);
        }
    }
}

proof fn lemma_n_resolving_step(s: Seq<JobEntry>, ids: Seq<Seq<char>>)
    requires
        s.len() > 0,
    ensures
        n_resolving(s, ids) <= n_resolving(s.drop_last(), ids) + n_equal(s.last().id@, ids),
    decreases ids.len(),
{
    if ids.len() > 0 {
        lemma_n_resolving_step(s, ids.drop_last());
        let x = ids.last();
        lemma_job_pos_shape(s, x);
        lemma_job_pos_shape(s.drop_last(), x);
        if job_pos(s, x) is Some && x != s.last().id@ {
            let i = job_pos(s, x)->0;
            if i == s.len() - 1 {
                assert(s[i] == s.last());
            } else {
                assert(s.drop_last()[i] == s[i]);
            }
        }
    }
}

proof fn lemma_n_resolving_empty(ids: Seq<Seq<char>>)
    ensures
        n_resolving(Seq::<JobEntry>::empty(), ids) == 0,
    decreases ids.len(),
{
    if ids.len() > 0 {
        lemma_n_resolving_empty(ids.drop_last());
    }
}

proof fn lemma_n_resolving_bounded(s: Seq<JobEntry>, ids: Seq<Seq<char>>)
    requires
        distinct_ids(ids),
    ensures
        n_resolving(s, ids) <= s.len(),
    decreases s.len(),
{
    if s.len() == 0 {
        assert(s =~= Seq::<JobEntry>::empty());
        lemma_n_resolving_empty(ids);
    } else {
        lemma_n_resolving_bounded(s.drop_last(), ids);
        lemma_n_resolving_step(s, ids);
        lemma_n_equal_at_most_one(s.last().id@, ids);
    }
}

/// Law: whatever jobs were created before, registering one keeps at most
/// `MAX_JOBS` jobs, the new id resolves, and of any distinct ids (for
/// instance all ids ever returned, when they are distinct) at most
/// `MAX_JOBS` still resolve.
pub proof fn lemma_job_count_bounded(
    s: Seq<JobEntry>,
    t: Seq<JobEntry>,
    id: Seq<char>,
    asset_id: Seq<char>,
    now: u64,
    ids: Seq<Seq<char>>,
)
    requires
        registered(s, t, id, asset_id, now),
        t.len() <= MAX_JOBS,
        distinct_ids(ids),
    ensures
        job_pos(t, id) is Some,
        n_resolving(t, ids) <= MAX_JOBS,
{
    lemma_n_resolving_bounded(t, ids);
    let e = evict_jobs(alive_jobs(s, now));
    lemma_job_pos_shape(e, id);
    lemma_job_pos_shape(t, id);
    match job_pos(e, id) {
        Some(i) => {
            assert(t[i].id@ == id);
        },
        None => {
            assert(t[t.len() - 1].id@ == id);
        },
    }
}

/// `uuid::Uuid::new_v4().to_string()`: a random identifier in the hyphenated
/// form of 36 characters. Nothing else is promised of it.
#[verifier::external_body]
pub(crate) fn new_uuid() -> (r: String)
    ensures
        r@.len() == 36,
{
    uuid::Uuid::new_v4().to_string()
}

// ─── output paging (shared with the output cache) ───

/// First byte of a page: `offset`, clamped to the length.
pub open spec fn page_start(total: int, offset: u64) -> int {
    if offset < total {
        offset as int
    } else {
        total
    }
}

/// End of a page: at most `limit` bytes after its start, clamped to the length.
pub open spec fn page_end(total: int, offset: u64, limit: usize) -> int {
    let e = page_start(total, offset) + limit;
    if e < total {
        e
    } else {
        total
    }
}

/// `(chunk, total, eof)` is the page of `bytes` at `offset` of at most `limit`
/// bytes: its text (invalid UTF-8 replaced), the total length and whether the
/// page reaches the end.
pub open spec fn page_of(
    bytes: Seq<u8>,
    offset: u64,
    limit: usize,
    chunk: Seq<char>,
    total: u64,
    eof: bool,
) -> bool {
    let n = bytes.len() as int;
    &&& total == n
    &&& chunk == utf8_lossy(bytes.subrange(page_start(n, offset), page_end(n, offset, limit)))
    &&& eof == (page_end(n, offset, limit) >= n)
}

/// One page of `bytes`: its text, the total length and whether it is the last.
pub fn read_page(bytes: &Vec<u8>, offset: u64, limit: usize) -> (r: (String, u64, bool))
    ensures
        page_of(bytes@, offset, limit, r.0@, r.1, r.2),
{
    let len = bytes.len();
    let total = len as u64;
    let start: usize = if offset < total {
        offset as usize
    } else {
        len
    };
    let sum = start.saturating_add(limit);
    let end = if sum < len {
        sum
    } else {
        len
    };
    let part = slice_bytes(bytes.as_slice(), start, end);
    let chunk = decode_lossy(part.as_slice());
    (chunk, total, end as u64 >= total)
}

// ─── output ring buffer ───

/// Bytes over the per-job limit in an output of `n` bytes.
pub open spec fn overflow(n: int) -> int {
    if n > JOB_OUTPUT_MAX_BYTES {
        n - JOB_OUTPUT_MAX_BYTES
    } else {
        0
    }
}

/// The job `e` after `bytes` were appended to its output: the newest
/// `JOB_OUTPUT_MAX_BYTES` bytes stay, the others are counted as dropped.
pub open spec fn appended(e: JobEntry, bytes: Seq<u8>, t: JobEntry) -> bool {
    let all = e.output@ + bytes;
    &&& t.output@ == all.skip(overflow(all.len() as int))
    &&& t.dropped_head_bytes == e.dropped_head_bytes + overflow(all.len() as int)
    &&& t == JobEntry { output: t.output, dropped_head_bytes: t.dropped_head_bytes, ..e }
}

/// Appending `n` bytes to job `id` keeps its byte counters within `u64`.
pub open spec fn append_fits(s: Seq<JobEntry>, id: Seq<char>, n: nat) -> bool {
    match job_pos(s, id) {
        Some(i) => s[i].dropped_head_bytes + s[i].output@.len() + n <= u64::MAX,
        None => true,
    }
}

/// What appending `bytes` to the output of job `id` makes of the jobs `s`.
pub open spec fn output_appended(s: Seq<JobEntry>, id: Seq<char>, bytes: Seq<u8>, t: Seq<JobEntry>) -> bool {
    match job_pos(s, id) {
        None => t == s,
        Some(i) => appended(s[i], bytes, t[i]) && replaced_at(s, t, i, t[i]),
    }
}

/// Whether cancelling job `id` was asked for.
pub open spec fn cancel_flag(s: Seq<JobEntry>, id: Seq<char>) -> bool {
    match job_pos(s, id) {
        Some(i) => s[i].cancel_requested,
        None => false,
    }
}

/// What asking to cancel job `id` of the jobs `s` answers (`r`) and leaves (`t`).
pub open spec fn cancel_outcome(s: Seq<JobEntry>, id: Seq<char>, r: bool, t: Seq<JobEntry>) -> bool {
    match job_pos(s, id) {
        None => !r && t == s,
        Some(i) => if s[i].status != JobStatus::Running || s[i].cancel_requested {
            !r && t == s
        } else {
            r && replaced_at(s, t, i, JobEntry { cancel_requested: true, ..s[i] })
        },
    }
}

/// The status of job `e` as a snapshot.
pub open spec fn snapshot_of(e: JobEntry, s: JobSnapshot) -> bool {
    &&& s.asset_id == e.asset_id
    &&& s.status == e.status
    &&& s.exit_code == e.exit_code
    &&& s.error == e.error
    &&& s.output_bytes == e.output@.len()
    &&& s.dropped_head_bytes == e.dropped_head_bytes
    &&& s.created_ms == e.created_ms
    &&& s.finished_ms == e.finished_ms
    &&& s.cancel_requested == e.cancel_requested
}

fn find_job(v: &Vec<JobEntry>, id: &str) -> (r: Option<usize>)
    ensures
        match r {
            Some(i) => job_pos(v@, id@) == Some(i as int) && i < v@.len(),
            None => job_pos(v@, id@) is None,
        },
{
    let mut i: usize = 0;
    while i < v.len()
        invariant
            i <= v@.len(),
            forall|j: int| 0 <= j < i ==> (#[trigger] v@[j]).id@ != id@,
        decreases v.len() - i,
    {
        if same_text(v[i].id.as_str(), id) {
            proof {
                lemma_job_pos(v@, id@, i as int);
            }
            return Some(i);
        }
        i += 1;
    }
    proof {
        lemma_job_pos(v@, id@, v@.len() as int);
    }
    None
}

fn copy_text(o: &Option<String>) -> (r: Option<String>)
    ensures
        r == *o,
{
    match o {
        Some(s) => Some(s.clone()),
        None => None,
    }
}

impl JobStore {
    /// The empty store.
    pub fn new() -> (s: Self)
        ensures
            s@.len() == 0,
            job_ids_unique(s@),
    {
        JobStore { jobs: Vec::new() }
    }

    /// Registers job `id` for `asset_id` at `now` (status `Running`), after
    /// dropping expired jobs and evicting the oldest down to `MAX_JOBS - 1`.
    pub fn create_at(&mut self, id: String, asset_id: &str, now: u64)
        ensures
            registered(old(self)@, final(self)@, id@, asset_id@, now),
            final(self)@.len() <= MAX_JOBS,
            job_ids_unique(old(self)@) ==> job_ids_unique(final(self)@),
    {
        let mut all: Vec<JobEntry> = Vec::new();
        std::mem::swap(&mut all, &mut self.jobs);
        let ghost orig = all@;
        let mut kept: Vec<JobEntry> = Vec::new();
        for e in it: all.into_iter()
            invariant
                it.seq() == orig,
                kept@ == alive_jobs(orig.take(it.index() as int), now),
        {
            proof {
                let i = it.index() as int;
                assert(orig.take(i + 1).drop_last() =~= orig.take(i));
                assert(orig.take(i + 1).last() == e);
            }
            let age = now.saturating_sub(e.created_ms);
            let alive = match e.status {
                JobStatus::Running => age < 2 * JOB_TTL_MS,
                _ => age < JOB_TTL_MS,
            };
            if alive {
                kept.push(e);
            }
        }
        proof {
            assert(orig.take(orig.len() as int) =~= orig);
        }
        let ghost alive_seq = kept@;
        while kept.len() >= MAX_JOBS
            invariant
                evict_jobs(kept@) == evict_jobs(alive_seq),
            decreases kept.len(),
        {
            let mut times: Vec<u64> = Vec::new();
            let mut k: usize = 0;
            while k < kept.len()
                invariant
                    k <= kept@.len(),
                    times@ =~= job_times(kept@).take(k as int),
                decreases kept.len() - k,
            {
                times.push(kept[k].created_ms);
                k += 1;
            }
            proof {
                assert(job_times(kept@).take(kept@.len() as int) =~= job_times(kept@));
                lemma_first_min(job_times(kept@));
            }
            let i = first_min_index(times.as_slice());
            let ghost before = kept@;
            kept.remove(i);
            proof {
                assert(kept@ =~= before.remove(i as int));
            }
        }
        proof {
            lemma_evict_jobs_len(alive_seq);
        }
        let ghost ev = kept@;
        let ghost id_view = id@;
        let entry = JobEntry {
            id,
            asset_id: asset_id.to_owned(),
            status: JobStatus::Running,
            exit_code: None,
            output: Vec::new(),
            dropped_head_bytes: 0,
            error: None,
            created_ms: now,
            finished_ms: None,
            cancel_requested: false,
            done_notified: false,
        };
        proof {
            lemma_job_pos_shape(kept@, entry.id@);
        }
        match find_job(&kept, entry.id.as_str()) {
            Some(i) => {
                kept.remove(i);
                kept.insert(i, entry);
            },
            None => {
                kept.push(entry);
                assert(kept@.take(ev.len() as int) =~= ev);
            },
        }
        self.jobs = kept;
        proof {
            if job_ids_unique(old(self)@) {
                lemma_registered_unique(old(self)@, self@, id_view, asset_id@, now);
            }
        }
    }

    /// Registers a new job for `asset_id` under a fresh random id, stamped with
    /// the current time, and returns the id.
    pub fn create(&mut self, asset_id: &str) -> (id: String)
        ensures
            registered(
                old(self)@,
                final(self)@,
                id@,
                asset_id@,
                final(self)@[job_pos(final(self)@, id@)->0].created_ms,
            ),
            final(self)@.len() <= MAX_JOBS,
            job_ids_unique(old(self)@) ==> job_ids_unique(final(self)@),
    {
        let id = new_uuid();
        let now = now_ms();
        let kept_id = id.clone();
        self.create_at(id, asset_id, now);
        proof {
            let e = evict_jobs(alive_jobs(old(self)@, now));
            let t = self@;
            lemma_job_pos_shape(e, kept_id@);
            match job_pos(e, kept_id@) {
                Some(i) => {
                    assert forall|j: int| 0 <= j < i implies (#[trigger] t[j]).id@ != kept_id@ by {
                        assert(t[j] == e[j]);
                    }
                    lemma_job_pos(t, kept_id@, i);
                },
                None => {
                    assert forall|j: int| 0 <= j < e.len() implies (#[trigger] t[j]).id@
                        != kept_id@ by {
                        assert(t[j] == t.take(e.len() as int)[j]);
                    }
                    lemma_job_pos(t, kept_id@, e.len() as int);
                },
            }
        }
        kept_id
    }

    /// Records the final status of job `id` (its finish time is the current
    /// time); an unknown id changes nothing. Returns whether the job's "done"
    /// notification is due now: only on the first settlement of a known job.
    pub fn settle(&mut self, id: &str, status: JobStatus, exit_code: Option<u32>, error: Option<
        String,
    >) -> (notify: bool)
        ensures
            settled(old(self)@, id@, status, exit_code, error, notify, final(self)@),
            job_ids_unique(old(self)@) ==> job_ids_unique(final(self)@),
    {
        proof {
            lemma_job_pos_shape(self@, id@);
        }
        match find_job(&self.jobs, id) {
            None => false,
            Some(i) => {
                let mut e = self.jobs.remove(i);
                let notify = !e.done_notified;
                e.status = status;
                e.exit_code = exit_code;
                e.error = error;
                e.finished_ms = Some(now_ms());
                e.done_notified = true;
                self.jobs.insert(i, e);
                proof {
                    if job_ids_unique(old(self)@) {
                        lemma_unique_replaced(old(self)@, self@, i as int, self@[i as int]);
                    }
                }
                notify
            },
        }
    }

    /// The output a finished command leaves in its job: stdout, then a
    /// `--- stderr ---` section when stderr is not empty.
    pub fn job_output_body(out: &ExecOnceOutput) -> (r: String)
        ensures
            r@ == exec_body(out.stdout@, out.stderr@, ""@),
    {
        let v = exec_body_text(out.stdout.as_str(), out.stderr.as_str(), "");
        string_of(v.as_slice())
    }

    /// Settles job `id` after its command ran: the output is appended, then the
    /// job is `Cancelled` when a cancel was asked for (a cancelled command may
    /// still end normally, its channel being closed), `Done` with the exit
    /// status otherwise; a failed run is `Cancelled` or `Failed` with the error
    /// the same way. Returns whether the done notification is due.
    pub fn finish_job(&mut self, id: &str, result: Result<ExecOnceOutput, String>) -> (notify: bool)
        requires
            result matches Ok(out) ==> append_fits(
                old(self)@,
                id@,
                encode_utf8(exec_body(out.stdout@, out.stderr@, ""@)).len(),
            ),
        ensures
            match result {
                Ok(out) => exists|mid: Seq<JobEntry>|
                    output_appended(old(self)@, id@, encode_utf8(exec_body(out.stdout@, out.stderr@, ""@)), mid)
                        && (if cancel_flag(old(self)@, id@) {
                        settled(mid, id@, JobStatus::Cancelled, None, None, notify, final(self)@)
                    } else {
                        settled(mid, id@, JobStatus::Done, out.exit_code, None, notify, final(self)@)
                    }),
                Err(e) => if cancel_flag(old(self)@, id@) {
                    settled(old(self)@, id@, JobStatus::Cancelled, None, None, notify, final(self)@)
                } else {
                    settled(old(self)@, id@, JobStatus::Failed, None, Some(e), notify, final(self)@)
                },
            },
            job_ids_unique(old(self)@) ==> job_ids_unique(final(self)@),
    {
        proof {
            lemma_job_pos_shape(self@, id@);
        }
        let cancelled = match find_job(&self.jobs, id) {
            Some(i) => self.jobs[i].cancel_requested,
            None => false,
        };
        match result {
            Ok(out) => {
                let body = JobStore::job_output_body(&out);
                self.append_output(id, body.as_str().as_bytes());
                let ghost mid = self@;
                proof {
                    lemma_job_pos_shape(mid, id@);
                    match job_pos(old(self)@, id@) {
                        Some(i) => {
                            assert forall|j: int| 0 <= j < i implies (#[trigger] mid[j]).id@ != id@ by {
                                assert(mid[j] == old(self)@[j]);
                            }
                            lemma_job_pos(mid, id@, i);
                        },
                        None => {},
                    }
                }
                if cancelled {
                    self.settle(id, JobStatus::Cancelled, None, None)
                } else {
                    self.settle(id, JobStatus::Done, out.exit_code, None)
                }
            },
            Err(e) => {
                if cancelled {
                    self.settle(id, JobStatus::Cancelled, None, None)
                } else {
                    self.settle(id, JobStatus::Failed, None, Some(e))
                }
            },
        }
    }

    /// Settles job `id` as `Failed` when its connection could not be made.
    pub fn fail_to_connect(&mut self, id: &str, err: &str) -> (notify: bool)
        ensures
            exists|m: String|
                m@ == "连接失败: "@ + err@ && settled(
                    old(self)@,
                    id@,
                    JobStatus::Failed,
                    None,
                    Some(m),
                    notify,
                    final(self)@,
                ),
            job_ids_unique(old(self)@) ==> job_ids_unique(final(self)@),
    {
        let mut v = chars_of("连接失败: ");
        push_str(&mut v, err);
        let m = string_of(v.as_slice());
        let ghost mv = m;
        self.settle(id, JobStatus::Failed, None, Some(m))
    }

    /// The number of jobs kept.
    pub fn len(&self) -> (n: usize)
        ensures
            n == self@.len(),
    {
        self.jobs.len()
    }

    /// Appends `bytes` to the output of job `id`, keeping its newest
    /// `JOB_OUTPUT_MAX_BYTES` bytes and counting those dropped from the head.
    pub fn append_output(&mut self, id: &str, bytes: &[u8])
        requires
            append_fits(old(self)@, id@, bytes@.len()),
        ensures
            output_appended(old(self)@, id@, bytes@, final(self)@),
            job_ids_unique(old(self)@) ==> job_ids_unique(final(self)@),
    {
        proof {
            lemma_job_pos_shape(self@, id@);
        }
        match find_job(&self.jobs, id) {
            None => {},
            Some(i) => {
                let mut e = self.jobs.remove(i);
                let ghost e0 = e;
                let ghost before = e.output@;
                let mut k: usize = 0;
                while k < bytes.len()
                    invariant
                        k <= bytes@.len(),
                        e.output@ == before + bytes@.take(k as int),
                        e == (JobEntry { output: e.output, ..e0 }),
                    decreases bytes.len() - k,
                {
                    e.output.push(bytes[k]);
                    k += 1;
                    assert(e.output@ =~= before + bytes@.take(k as int));
                }
                assert(bytes@.take(bytes@.len() as int) =~= bytes@);
                let n = e.output.len();
                if n > JOB_OUTPUT_MAX_BYTES {
                    let dropped = n - JOB_OUTPUT_MAX_BYTES;
                    let tail = e.output.split_off(dropped);
                    e.output = tail;
                    e.dropped_head_bytes = e.dropped_head_bytes + dropped as u64;
                    assert(e.output@ =~= (before + bytes@).skip(dropped as int));
                } else {
                    assert(e.output@ =~= (before + bytes@).skip(0));
                }
                self.jobs.insert(i, e);
                proof {
                    if job_ids_unique(old(self)@) {
                        lemma_unique_replaced(old(self)@, self@, i as int, self@[i as int]);
                    }
                }
            },
        }
    }

    /// Asks to cancel job `id`: `true` when the request is new and the job
    /// still runs (the flag is set; the status is settled by the runner),
    /// `false` for an unknown, finished or already cancelled job.
    pub fn request_cancel(&mut self, id: &str) -> (r: bool)
        ensures
            cancel_outcome(old(self)@, id@, r, final(self)@),
            job_ids_unique(old(self)@) ==> job_ids_unique(final(self)@),
    {
        proof {
            lemma_job_pos_shape(self@, id@);
        }
        match find_job(&self.jobs, id) {
            None => false,
            Some(i) => {
                if self.jobs[i].status.is_terminal() || self.jobs[i].cancel_requested {
                    return false;
                }
                let mut e = self.jobs.remove(i);
                e.cancel_requested = true;
                self.jobs.insert(i, e);
                proof {
                    if job_ids_unique(old(self)@) {
                        lemma_unique_replaced(old(self)@, self@, i as int, self@[i as int]);
                    }
                }
                true
            },
        }
    }

    /// The status of job `id`, without its output.
    pub fn snapshot(&self, id: &str) -> (r: Option<JobSnapshot>)
        ensures
            match job_pos(self@, id@) {
                None => r is None,
                Some(i) => r matches Some(s) && snapshot_of(self@[i], s),
            },
    {
        proof {
            lemma_job_pos_shape(self@, id@);
        }
        match find_job(&self.jobs, id) {
            None => None,
            Some(i) => {
                let e = &self.jobs[i];
                Some(
                    JobSnapshot {
                        asset_id: e.asset_id.clone(),
                        status: e.status,
                        exit_code: e.exit_code,
                        error: copy_text(&e.error),
                        output_bytes: e.output.len() as u64,
                        dropped_head_bytes: e.dropped_head_bytes,
                        created_ms: e.created_ms,
                        finished_ms: e.finished_ms,
                        cancel_requested: e.cancel_requested,
                    },
                )
            },
        }
    }

    /// One page of the output of job `id`: `(text, total bytes, eof, bytes
    /// dropped from the head)`. Reading renews the job (its creation time
    /// becomes the current time).
    pub fn read_output(&mut self, id: &str, offset: u64, limit: usize) -> (r: Option<
        (String, u64, bool, u64),
    >)
        ensures
            match job_pos(old(self)@, id@) {
                None => r is None && final(self)@ == old(self)@,
                Some(i) => r matches Some((chunk, total, eof, dropped)) && page_of(
                    old(self)@[i].output@,
                    offset,
                    limit,
                    chunk@,
                    total,
                    eof,
                ) && dropped == old(self)@[i].dropped_head_bytes && replaced_at(
                    old(self)@,
                    final(self)@,
                    i,
                    JobEntry { created_ms: final(self)@[i].created_ms, ..old(self)@[i] },
                ),
            },
            job_ids_unique(old(self)@) ==> job_ids_unique(final(self)@),
    {
        proof {
            lemma_job_pos_shape(self@, id@);
        }
        match find_job(&self.jobs, id) {
            None => None,
            Some(i) => {
                let mut e = self.jobs.remove(i);
                e.created_ms = now_ms();
                let (chunk, total, eof) = read_page(&e.output, offset, limit);
                let dropped = e.dropped_head_bytes;
                self.jobs.insert(i, e);
                proof {
                    if job_ids_unique(old(self)@) {
                        lemma_unique_replaced(old(self)@, self@, i as int, self@[i as int]);
                    }
                }
                Some((chunk, total, eof, dropped))
            },
        }
    }
}

/// Law: cancelling is idempotent. Once a request to cancel a job was
/// accepted, asking again is refused and changes nothing.
pub proof fn lemma_cancel_idempotent(
    s: Seq<JobEntry>,
    id: Seq<char>,
    t: Seq<JobEntry>,
    r2: bool,
    u: Seq<JobEntry>,
)
    requires
        cancel_outcome(s, id, true, t),
        cancel_outcome(t, id, r2, u),
    ensures
        !r2,
        u == t,
{
    lemma_job_pos_shape(s, id);
    let i = job_pos(s, id)->0;
    assert forall|j: int| 0 <= j < i implies (#[trigger] t[j]).id@ != id by {
        assert(t[j] == s[j]);
    }
    lemma_job_pos(t, id, i);
}

/// Law: a job just registered is found under its id, running, with no output.
pub proof fn lemma_registered_job_found(
    s: Seq<JobEntry>,
    t: Seq<JobEntry>,
    id: Seq<char>,
    asset_id: Seq<char>,
    now: u64,
)
    requires
        registered(s, t, id, asset_id, now),
    ensures
        job_pos(t, id) matches Some(i) && 0 <= i < t.len() && fresh_job(t[i], id, asset_id, now),
{
    let e = evict_jobs(alive_jobs(s, now));
    lemma_job_pos_shape(e, id);
    match job_pos(e, id) {
        Some(i) => {
            assert forall|j: int| 0 <= j < i implies (#[trigger] t[j]).id@ != id by {
                assert(t[j] == e[j]);
            }
            lemma_job_pos(t, id, i);
        },
        None => {
            assert forall|j: int| 0 <= j < e.len() implies (#[trigger] t[j]).id@ != id by {
                assert(t[j] == t.take(e.len() as int)[j]);
            }
            lemma_job_pos(t, id, e.len() as int);
        },
    }
}

/// Law: a job's kept output never exceeds `JOB_OUTPUT_MAX_BYTES`, and kept plus
/// dropped bytes account for everything appended.
pub proof fn lemma_appended_bounded(e: JobEntry, bytes: Seq<u8>, t: JobEntry)
    requires
        appended(e, bytes, t),
        e.output@.len() <= JOB_OUTPUT_MAX_BYTES,
    ensures
        t.output@.len() <= JOB_OUTPUT_MAX_BYTES,
        t.output@.len() + t.dropped_head_bytes == e.output@.len() + e.dropped_head_bytes + bytes.len(),
{
}

/// Law: a job's "done" notification is given at most once: settling a job a
/// second time notifies nothing.
pub proof fn lemma_done_notified_once(
    s: Seq<JobEntry>,
    id: Seq<char>,
    st1: JobStatus,
    code1: Option<u32>,
    err1: Option<String>,
    n1: bool,
    t: Seq<JobEntry>,
    st2: JobStatus,
    code2: Option<u32>,
    err2: Option<String>,
    n2: bool,
    u: Seq<JobEntry>,
)
    requires
        settled(s, id, st1, code1, err1, n1, t),
        settled(t, id, st2, code2, err2, n2, u),
    ensures
        !n2,
{
    lemma_job_pos_shape(s, id);
    match job_pos(s, id) {
        None => {},
        Some(i) => {
            assert forall|j: int| 0 <= j < i implies (#[trigger] t[j]).id@ != id by {
                assert(t[j] == s[j]);
            }
            lemma_job_pos(t, id, i);
        },
    }
}

/// Law: a finished job cannot be cancelled; the request is refused and the
/// jobs stay as they are.
pub proof fn lemma_cancel_after_settle(s: Seq<JobEntry>, id: Seq<char>, r: bool, t: Seq<JobEntry>)
    requires
        job_pos(s, id) is Some,
        s[job_pos(s, id)->0].status != JobStatus::Running,
        cancel_outcome(s, id, r, t),
    ensures
        !r,
        t == s,
{
}

} // verus!
