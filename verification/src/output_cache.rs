//! Server-side cache of truncated `ssh_exec` output, read back by cursor.
//!
//! When a command's output is cut for the reply, the whole output is kept here
//! under a random cursor and `read_output` pages through it. Entries live 10
//! minutes (reading renews them), at most 32 are kept (the oldest goes first)
//! and each keeps its newest 8 MiB, counting the bytes dropped from its head.
//! An unknown or expired cursor is an error, never an empty page.
use vstd::prelude::*;

use crate::execution_log::{now_ms, sat_sub};
use crate::job_store::{first_min, first_min_index, lemma_first_min, new_uuid, page_of, read_page};
use crate::text::{chars_of, push_str, same_text, string_of};

verus! {

/// Per-entry limit in bytes (8 MiB; beyond it the head is dropped).
pub const MAX_ENTRY_BYTES: usize = 8388608;

/// At most this many entries are kept.
pub const MAX_CACHED: usize = 32;

/// Lifetime of an entry, in milliseconds (10 minutes).
pub const CACHE_TTL_MS: u64 = 600000;

pub struct OutputEntry {
    pub cursor: String,
    /// The output, newest `MAX_ENTRY_BYTES` bytes.
    pub bytes: Vec<u8>,
    /// Bytes dropped from the head of the output.
    pub dropped_head_bytes: u64,
    pub created_ms: u64,
}

/// The cached outputs, in the order they were stored.
pub struct OutputCache {
    entries: Vec<OutputEntry>,
}

impl View for OutputCache {
    type V = Seq<OutputEntry>;

    closed spec fn view(&self) -> Seq<OutputEntry> {
        self.entries@
    }
}

pub open spec fn entry_times(s: Seq<OutputEntry>) -> Seq<u64> {
    Seq::new(s.len(), |k: int| s[k].created_ms)
}

/// The entries younger than `CACHE_TTL_MS` at `now`, in order.
pub open spec fn live_entries(s: Seq<OutputEntry>, now: u64) -> Seq<OutputEntry>
    decreases s.len(),
{
    if s.len() == 0 {
        Seq::<OutputEntry>::empty()
    } else {
        let p = live_entries(s.drop_last(), now);
        if sat_sub(now, s.last().created_ms) < CACHE_TTL_MS {
            p.push(s.last())
        } else {
            p
        }
    }
}

/// Drops the oldest entry while `MAX_CACHED` or more are kept.
pub open spec fn evict_entries(s: Seq<OutputEntry>) -> Seq<OutputEntry>
    decreases s.len(),
{
    if s.len() >= MAX_CACHED && 0 <= first_min(entry_times(s)) < s.len() {
        evict_entries(s.remove(first_min(entry_times(s))))
    } else {
        s
    }
}

proof fn lemma_evict_entries_len(s: Seq<OutputEntry>)
    ensures
        evict_entries(s).len() < MAX_CACHED,
    decreases s.len(),
{
    if s.len() >= MAX_CACHED {
        lemma_first_min(entry_times(s));
        lemma_evict_entries_len(s.remove(first_min(entry_times(s))));
    }
}

/// Position of the first entry with the given cursor.
pub open spec fn entry_pos(s: Seq<OutputEntry>, cursor: Seq<char>) -> Option<int>
    decreases s.len(),
{
    if s.len() == 0 {
        None
    } else if s[0].cursor@ == cursor {
        Some(0)
    } else {
        match entry_pos(s.drop_first(), cursor) {
            Some(i) => Some(i + 1),
            None => None,
        }
    }
}

proof fn lemma_entry_pos(s: Seq<OutputEntry>, cursor: Seq<char>, i: int)
    requires
        0 <= i <= s.len(),
        forall|j: int| 0 <= j < i ==> (#[trigger] s[j]).cursor@ != cursor,
        i < s.len() ==> s[i].cursor@ == cursor,
    ensures
        entry_pos(s, cursor) == (if i < s.len() {
            Some(i)
        } else {
            None::<int>
        }),
    decreases s.len(),
{
    if s.len() > 0 && i > 0 {
        let t = s.drop_first();
        assert forall|j: int| 0 <= j < i - 1 implies (#[trigger] t[j]).cursor@ != cursor by {
            assert(t[j] == s[j + 1]);
        }
        lemma_entry_pos(t, cursor, i - 1);
    }
}

proof fn lemma_entry_pos_shape(s: Seq<OutputEntry>, cursor: Seq<char>)
    ensures
        match entry_pos(s, cursor) {
            Some(i) => 0 <= i < s.len() && s[i].cursor@ == cursor && forall|j: int|
                0 <= j < i ==> (#[trigger] s[j]).cursor@ != cursor,
            None => forall|j: int| 0 <= j < s.len() ==> (#[trigger] s[j]).cursor@ != cursor,
        },
    decreases s.len(),
{
    if s.len() > 0 {
        let t = s.drop_first();
        lemma_entry_pos_shape(t, cursor);
        if s[0].cursor@ != cursor {
            match entry_pos(t, cursor) {
                Some(i) => {
                    assert forall|j: int| 0 <= j < i + 1 implies (#[trigger] s[j]).cursor@
                        != cursor by {
                        if j > 0 {
                            assert(s[j] == t[j - 1]);
                        }
                    }
                },
                None => {
                    assert forall|j: int| 0 <= j < s.len() implies (#[trigger] s[j]).cursor@
                        != cursor by {
                        if j > 0 {
                            assert(s[j] == t[j - 1]);
                        }
                    }
                },
            }
        }
    }
}

/// Bytes over the per-entry limit in an output of `n` bytes.
pub open spec fn excess(n: int) -> int {
    if n > MAX_ENTRY_BYTES {
        n - MAX_ENTRY_BYTES
    } else {
        0
    }
}

/// The entry kept for `bytes` stored under `cursor` at `now`.
pub open spec fn stored_entry(e: OutputEntry, cursor: Seq<char>, bytes: Seq<u8>, now: u64) -> bool {
    &&& e.cursor@ == cursor
    &&& e.bytes@ == bytes.skip(excess(bytes.len() as int))
    &&& e.dropped_head_bytes == excess(bytes.len() as int)
    &&& e.created_ms == now
}

/// What storing `bytes` under `cursor` at `now` makes of the entries `s`:
/// expired entries are dropped, the oldest are evicted below `MAX_CACHED`,
/// then the new entry replaces one with the same cursor or is appended.
pub open spec fn stored(
    s: Seq<OutputEntry>,
    t: Seq<OutputEntry>,
    cursor: Seq<char>,
    bytes: Seq<u8>,
    now: u64,
) -> bool {
    let e = evict_entries(live_entries(s, now));
    match entry_pos(e, cursor) {
        Some(i) => t.len() == e.len() && stored_entry(t[i], cursor, bytes, now) && forall|j: int|
            0 <= j < e.len() && j != i ==> #[trigger] t[j] == e[j],
        None => t.len() == e.len() + 1 && t.take(e.len() as int) == e && stored_entry(
            t.last(),
            cursor,
            bytes,
            now,
        ),
    }
}

/// Law: an output just stored is found under its cursor, holding the newest
/// `MAX_ENTRY_BYTES` bytes of what was stored and the count of those dropped.
pub proof fn lemma_stored_output_found(
    s: Seq<OutputEntry>,
    t: Seq<OutputEntry>,
    cursor: Seq<char>,
    bytes: Seq<u8>,
    now: u64,
)
    requires
        stored(s, t, cursor, bytes, now),
    ensures
        entry_pos(t, cursor) matches Some(i) && 0 <= i < t.len() && stored_entry(t[i], cursor, bytes, now),
{
    let e = evict_entries(live_entries(s, now));
    lemma_entry_pos_shape(e, cursor);
    match entry_pos(e, cursor) {
        Some(i) => {
            assert forall|j: int| 0 <= j < i implies (#[trigger] t[j]).cursor@ != cursor by {
                assert(t[j] == e[j]);
            }
            lemma_entry_pos(t, cursor, i);
        },
        None => {
            assert forall|j: int| 0 <= j < e.len() implies (#[trigger] t[j]).cursor@ != cursor by {
                assert(t[j] == t.take(e.len() as int)[j]);
            }
            lemma_entry_pos(t, cursor, e.len() as int);
        },
    }
}

// ─── unique cursors ───

/// No two entries share a cursor (the original keeps them in a map keyed by
/// cursor).
pub open spec fn cursors_unique(s: Seq<OutputEntry>) -> bool {
    forall|i: int, j: int| #![trigger s[i], s[j]] 0 <= i < j < s.len() ==> s[i].cursor@ != s[j].cursor@
}

proof fn lemma_live_unique(s: Seq<OutputEntry>, now: u64)
    requires
        cursors_unique(s),
    ensures
        cursors_unique(live_entries(s, now)),
        forall|k: int| 0 <= k < live_entries(s, now).len() ==> exists|m: int|
            0 <= m < s.len() && #[trigger] live_entries(s, now)[k] == s[m],
    decreases s.len(),
{
    if s.len() > 0 {
        let t = s.drop_last();
        assert(cursors_unique(t)) by {
            assert forall|a: int, b: int| #![trigger t[a], t[b]] 0 <= a < b < t.len() implies t[a].cursor@ != t[b].cursor@ by {
                assert(t[a] == s[a] && t[b] == s[b]);
            }
        }
        lemma_live_unique(t, now);
        let p = live_entries(t, now);
        let r = live_entries(s, now);
        assert forall|k: int| 0 <= k < p.len() implies exists|m: int|
            0 <= m < s.len() && #[trigger] p[k] == s[m] by {
            let m = choose|m: int| 0 <= m < t.len() && p[k] == t[m];
            assert(s[m] == t[m]);
        }
        if sat_sub(now, s.last().created_ms) < CACHE_TTL_MS {
            assert(r == p.push(s.last()));
            assert forall|a: int, b: int| #![trigger r[a], r[b]] 0 <= a < b < r.len() implies r[a].cursor@ != r[b].cursor@ by {
                if b == p.len() {
                    let m = choose|m: int| 0 <= m < t.len() && p[a] == t[m];
                    assert(s[m] == t[m]);
                    assert(r[a] == p[a]);
                    assert(r[b] == s[s.len() - 1]);
                } else {
                    assert(r[a] == p[a] && r[b] == p[b]);
                }
            }
            assert forall|k: int| 0 <= k < r.len() implies exists|m: int|
                0 <= m < s.len() && #[trigger] r[k] == s[m] by {
                if k == p.len() {
                    assert(r[k] == s[s.len() - 1]);
                } else {
                    assert(r[k] == p[k]);
                }
            }
        }
    }
}

proof fn lemma_remove_unique(s: Seq<OutputEntry>, i: int)
    requires
        cursors_unique(s),
        0 <= i < s.len(),
    ensures
        cursors_unique(s.remove(i)),
{
    let t = s.remove(i);
    assert forall|a: int, b: int| #![trigger t[a], t[b]] 0 <= a < b < t.len() implies t[a].cursor@ != t[b].cursor@ by {
        let a2 = if a < i { a } else { a + 1 };
        let b2 = if b < i { b } else { b + 1 };
        assert(t[a] == s[a2] && t[b] == s[b2]);
    }
}

proof fn lemma_evict_unique(s: Seq<OutputEntry>)
    requires
        cursors_unique(s),
    ensures
        cursors_unique(evict_entries(s)),
    decreases s.len(),
{
    if s.len() >= MAX_CACHED && 0 <= first_min(entry_times(s)) < s.len() {
        lemma_remove_unique(s, first_min(entry_times(s)));
        lemma_evict_unique(s.remove(first_min(entry_times(s))));
    }
}

/// Law: storing an output keeps the cursors unique.
pub proof fn lemma_stored_unique(
    s: Seq<OutputEntry>,
    t: Seq<OutputEntry>,
    cursor: Seq<char>,
    bytes: Seq<u8>,
    now: u64,
)
    requires
        cursors_unique(s),
        stored(s, t, cursor, bytes, now),
    ensures
        cursors_unique(t),
{
    lemma_live_unique(s, now);
    let e = evict_entries(live_entries(s, now));
    lemma_evict_unique(live_entries(s, now));
    lemma_entry_pos_shape(e, cursor);
    match entry_pos(e, cursor) {
        Some(i) => {
            assert forall|a: int, b: int| #![trigger t[a], t[b]] 0 <= a < b < t.len() implies t[a].cursor@ != t[b].cursor@ by {
                if a == i {
                    assert(t[b] == e[b]);
                } else if b == i {
                    assert(t[a] == e[a]);
                } else {
                    assert(t[a] == e[a] && t[b] == e[b]);
                }
            }
        },
        None => {
            assert forall|a: int, b: int| #![trigger t[a], t[b]] 0 <= a < b < t.len() implies t[a].cursor@ != t[b].cursor@ by {
                assert(t[a] == t.take(e.len() as int)[a]);
                if b < e.len() {
                    assert(t[b] == t.take(e.len() as int)[b]);
                } else {
                    assert(t[b] == t.last());
                }
            }
        },
    }
}

/// The error for a cursor that is unknown or expired.
pub open spec fn missing_cursor_text(cursor: Seq<char>) -> Seq<char> {
    "cursor 不存在或已过期（TTL 10 分钟）："@ + cursor + "。请重新执行原命令获取新 cursor。"@
}

fn find_entry(v: &Vec<OutputEntry>, cursor: &str) -> (r: Option<usize>)
    ensures
        match r {
            Some(i) => entry_pos(v@, cursor@) == Some(i as int) && i < v@.len(),
            None => entry_pos(v@, cursor@) is None,
        },
{
    let mut i: usize = 0;
    while i < v.len()
        invariant
            i <= v@.len(),
            forall|j: int| 0 <= j < i ==> (#[trigger] v@[j]).cursor@ != cursor@,
        decreases v.len() - i,
    {
        if same_text(v[i].cursor.as_str(), cursor) {
            proof {
                lemma_entry_pos(v@, cursor@, i as int);
            }
            return Some(i);
        }
        i += 1;
    }
    proof {
        lemma_entry_pos(v@, cursor@, v@.len() as int);
    }
    None
}

impl OutputCache {
    /// The empty cache.
    pub fn new() -> (c: Self)
        ensures
            c@.len() == 0,
            cursors_unique(c@),
    {
        OutputCache { entries: Vec::new() }
    }

    /// Stores `bytes` under `cursor` at `now`: keeps their newest
    /// `MAX_ENTRY_BYTES`, drops expired entries and evicts the oldest down to
    /// `MAX_CACHED - 1` first.
    pub fn store_at(&mut self, cursor: String, bytes: Vec<u8>, now: u64)
        ensures
            stored(old(self)@, final(self)@, cursor@, bytes@, now),
            final(self)@.len() <= MAX_CACHED,
            cursors_unique(old(self)@) ==> cursors_unique(final(self)@),
    {
        let ghost input = bytes@;
        let mut bytes = bytes;
        let n = bytes.len();
        let dropped: usize = if n > MAX_ENTRY_BYTES {
            n - MAX_ENTRY_BYTES
        } else {
            0
        };
        if dropped > 0 {
            let tail = bytes.split_off(dropped);
            bytes = tail;
        }
        assert(bytes@ =~= input.skip(dropped as int));
        let mut all: Vec<OutputEntry> = Vec::new();
        std::mem::swap(&mut all, &mut self.entries);
        let ghost orig = all@;
        let mut kept: Vec<OutputEntry> = Vec::new();
        for e in it: all.into_iter()
            invariant
                it.seq() == orig,
                kept@ == live_entries(orig.take(it.index() as int), now),
        {
            proof {
                let i = it.index() as int;
                assert(orig.take(i + 1).drop_last() =~= orig.take(i));
                assert(orig.take(i + 1).last() == e);
            }
            if now.saturating_sub(e.created_ms) < CACHE_TTL_MS {
                kept.push(e);
            }
        }
        proof {
            assert(orig.take(orig.len() as int) =~= orig);
        }
        let ghost live = kept@;
        while kept.len() >= MAX_CACHED
            invariant
                evict_entries(kept@) == evict_entries(live),
            decreases kept.len(),
        {
            let mut times: Vec<u64> = Vec::new();
            let mut k: usize = 0;
            while k < kept.len()
                invariant
                    k <= kept@.len(),
                    times@ =~= entry_times(kept@).take(k as int),
                decreases kept.len() - k,
            {
                times.push(kept[k].created_ms);
                k += 1;
            }
            proof {
                assert(entry_times(kept@).take(kept@.len() as int) =~= entry_times(kept@));
                lemma_first_min(entry_times(kept@));
            }
            let i = first_min_index(times.as_slice());
            let ghost before = kept@;
            kept.remove(i);
            proof {
                assert(kept@ =~= before.remove(i as int));
            }
        }
        proof {
            lemma_evict_entries_len(live);
        }
        let ghost ev = kept@;
        let ghost cursor_view = cursor@;
        let entry = OutputEntry { cursor, bytes, dropped_head_bytes: dropped as u64, created_ms: now };
        proof {
            lemma_entry_pos_shape(kept@, entry.cursor@);
        }
        match find_entry(&kept, entry.cursor.as_str()) {
            Some(i) => {
                kept.remove(i);
                kept.insert(i, entry);
            },
            None => {
                kept.push(entry);
                assert(kept@.take(ev.len() as int) =~= ev);
            },
        }
        self.entries = kept;
        proof {
            if cursors_unique(old(self)@) {
                lemma_stored_unique(old(self)@, self@, cursor_view, input, now);
            }
        }
    }

    /// The number of cached outputs.
    pub fn len(&self) -> (n: usize)
        ensures
            n == self@.len(),
    {
        self.entries.len()
    }

    /// Stores a command's whole output under a fresh random cursor, stamped
    /// with the current time, and returns the cursor.
    pub fn store(&mut self, bytes: Vec<u8>) -> (cursor: String)
        ensures
            stored(
                old(self)@,
                final(self)@,
                cursor@,
                bytes@,
                final(self)@[entry_pos(final(self)@, cursor@)->0].created_ms,
            ),
            entry_pos(final(self)@, cursor@) is Some,
            final(self)@.len() <= MAX_CACHED,
            cursors_unique(old(self)@) ==> cursors_unique(final(self)@),
    {
        let cursor = new_uuid();
        let now = now_ms();
        let kept_cursor = cursor.clone();
        let ghost input = bytes@;
        self.store_at(cursor, bytes, now);
        proof {
            let e = evict_entries(live_entries(old(self)@, now));
            let t = self@;
            lemma_entry_pos_shape(e, kept_cursor@);
            match entry_pos(e, kept_cursor@) {
                Some(i) => {
                    assert forall|j: int| 0 <= j < i implies (#[trigger] t[j]).cursor@
                        != kept_cursor@ by {
                        assert(t[j] == e[j]);
                    }
                    lemma_entry_pos(t, kept_cursor@, i);
                },
                None => {
                    assert forall|j: int| 0 <= j < e.len() implies (#[trigger] t[j]).cursor@
                        != kept_cursor@ by {
                        assert(t[j] == t.take(e.len() as int)[j]);
                    }
                    lemma_entry_pos(t, kept_cursor@, e.len() as int);
                },
            }
        }
        kept_cursor
    }

    /// One page of the output stored under `cursor`: `(text, total bytes, eof,
    /// bytes dropped from the head)`. Reading renews the entry (its creation
    /// time becomes the current time). An unknown cursor is an error.
    pub fn read(&mut self, cursor: &str, offset: u64, limit: usize) -> (r: Result<
        (String, u64, bool, u64),
        String,
    >)
        ensures
            match entry_pos(old(self)@, cursor@) {
                None => r matches Err(msg) && msg@ == missing_cursor_text(cursor@) && final(self)@
                    == old(self)@,
                Some(i) => r matches Ok((chunk, total, eof, dropped)) && page_of(
                    old(self)@[i].bytes@,
                    offset,
                    limit,
                    chunk@,
                    total,
                    eof,
                ) && dropped == old(self)@[i].dropped_head_bytes && final(self)@.len() == old(
                    self,
                )@.len() && final(self)@[i] == (OutputEntry {
                    created_ms: final(self)@[i].created_ms,
                    ..old(self)@[i]
                }) && forall|j: int|
                    0 <= j < old(self)@.len() && j != i ==> #[trigger] final(self)@[j] == old(
                        self,
                    )@[j],
            },
            cursors_unique(old(self)@) ==> cursors_unique(final(self)@),
    {
        proof {
            lemma_entry_pos_shape(self@, cursor@);
        }
        match find_entry(&self.entries, cursor) {
            None => {
                let mut v = chars_of("cursor 不存在或已过期（TTL 10 分钟）：");
                push_str(&mut v, cursor);
                push_str(&mut v, "。请重新执行原命令获取新 cursor。");
                Err(string_of(v.as_slice()))
            },
            Some(i) => {
                let mut e = self.entries.remove(i);
                e.created_ms = now_ms();
                let (chunk, total, eof) = read_page(&e.bytes, offset, limit);
                let dropped = e.dropped_head_bytes;
                self.entries.insert(i, e);
                proof {
                    if cursors_unique(old(self)@) {
                        let t = self@;
                        let o = old(self)@;
                        assert forall|a: int, b: int| #![trigger t[a], t[b]] 0 <= a < b < t.len() implies t[a].cursor@ != t[b].cursor@ by {
                            assert(t[a].cursor@ == o[a].cursor@);
                            assert(t[b].cursor@ == o[b].cursor@);
                        }
                    }
                }
                Ok((chunk, total, eof, dropped))
            },
        }
    }
}

} // verus!
