//! MCP tool execution log: entries, retention, listing order and output summaries.
//!
//! The log records every tool call that really reached a remote host. It is
//! kept in `mcp-execution-log.json` (reading and writing the file is the
//! caller's part); this module holds what is decided on the entries: lazy
//! retention (30 days, newest 1000 entries, at most once a day), the listing
//! order (newest first, ties broken by id) and the head-and-tail summaries.
use vstd::prelude::*;

use crate::text::{chars_of, push_all, push_str, string_of};

verus! {

/// One execution log entry (serialised camelCase by the application layer).
pub struct ExecutionLogEntry {
    pub id: String,
    pub timestamp_ms: u64,
    pub level: String,
    pub tool: String,
    pub asset_id: String,
    pub asset_name: String,
    pub host: String,
    pub port: u16,
    pub username: String,
    pub command: String,
    pub intent: String,
    pub decision: String,
    pub outcome: String,
    pub output_summary: String,
    pub risk: String,
    pub policy: String,
    pub duration_ms: u64,
    pub session_source: String,
    pub scope_result: String,
}

/// On-disk shape: time of the last cleanup and the entries in append order.
pub struct ExecutionLogStore {
    pub last_cleanup_ms: u64,
    pub entries: Vec<ExecutionLogEntry>,
}

impl ExecutionLogStore {
    /// The empty store.
    pub fn new() -> (s: Self)
        ensures
            s.last_cleanup_ms == 0,
            s.entries@.len() == 0,
    {
        ExecutionLogStore { last_cleanup_ms: 0, entries: Vec::new() }
    }
}

impl Default for ExecutionLogStore {
    /// The empty store.
    fn default() -> (s: Self)
        ensures
            s.last_cleanup_ms == 0,
            s.entries@.len() == 0,
    {
        ExecutionLogStore::new()
    }
}

/// What the caller reports after moving a damaged log aside: the new path,
/// or, when the move failed, the old path with the failure and the reason.
pub fn quarantine_report(path: &str, moved: Result<String, String>, reason: &str) -> (r: String)
    ensures
        match moved {
            Ok(p) => r == p,
            Err(e) => r@ == path@ + "（隔离改名失败: "@ + e@ + "，"@ + reason@ + "）"@,
        },
{
    match moved {
        Ok(p) => p,
        Err(e) => {
            let mut v = chars_of(path);
            push_str(&mut v, "（隔离改名失败: ");
            push_str(&mut v, e.as_str());
            push_str(&mut v, "，");
            push_str(&mut v, reason);
            push_str(&mut v, "）");
            string_of(v.as_slice())
        },
    }
}

/// A log file holding only whitespace is a fresh log (not damage).
pub fn is_blank_log_text(text: &str) -> (r: bool)
    ensures
        r == (crate::text::trim(text@).len() == 0),
{
    crate::text::trim_chars(chars_of(text).as_slice()).len() == 0
}

/// Entries are kept for 30 days.
pub const RETENTION_MS: u64 = 2592000000;

/// Lazy cleanup runs at most once per 24 hours.
pub const CLEANUP_INTERVAL_MS: u64 = 86400000;

/// At most the newest 1000 entries are kept.
pub const MAX_ENTRIES: usize = 1000;

/// `chrono::Utc::now().timestamp_millis()`: milliseconds since the Unix epoch,
/// read from the system clock (chrono panics when the clock is set before
/// 1970). Nothing is promised of the value.
#[verifier::external_body]
pub(crate) fn utc_now_millis() -> i64 {
    chrono::Utc::now().timestamp_millis()
}

/// The current time in milliseconds since the Unix epoch: the clock's `i64`
/// reading (a negative reading would count as 0), so it never exceeds
/// `i64::MAX`. Which instant the clock reports is not known; reading a clock
/// set before 1970 panics inside `chrono::Utc::now`.
pub fn now_ms() -> (r: u64)
    ensures
        r <= i64::MAX,
{
    let t = utc_now_millis();
    if t < 0 {
        0
    } else {
        t as u64
    }
}

/// `a.saturating_sub(b)`.
pub open spec fn sat_sub(a: u64, b: u64) -> u64 {
    if a >= b {
        (a - b) as u64
    } else {
        0
    }
}

/// The entries stamped at or after `cutoff`, in their original order.
pub open spec fn kept_since(s: Seq<ExecutionLogEntry>, cutoff: u64) -> Seq<ExecutionLogEntry>
    decreases s.len(),
{
    if s.len() == 0 {
        Seq::<ExecutionLogEntry>::empty()
    } else {
        let p = kept_since(s.drop_last(), cutoff);
        if s.last().timestamp_ms >= cutoff {
            p.push(s.last())
        } else {
            p
        }
    }
}

/// The newest `MAX_ENTRIES` of `s` (its tail).
pub open spec fn newest(s: Seq<ExecutionLogEntry>) -> Seq<ExecutionLogEntry> {
    if s.len() > MAX_ENTRIES {
        s.skip(s.len() - MAX_ENTRIES)
    } else {
        s
    }
}

/// Whether a cleanup is due at `now_ms`.
pub open spec fn cleanup_due(last_cleanup_ms: u64, now_ms: u64) -> bool {
    sat_sub(now_ms, last_cleanup_ms) > CLEANUP_INTERVAL_MS
}

/// The retention cutoff at `now_ms`: the start of the (UTC, epoch-aligned)
/// day that lies 30 days back; entries stamped before it are expired.
///
/// The cutoff is rounded down to a day boundary, as the cleanup scenario
/// requires (an entry stamped 30 days and some hours back within the same
/// day survives). So an entry may outlive `now_ms - 30 days` by up to one
/// day: at `now` = 40 days + 5 h an entry stamped at 10 days + 1 h is kept,
/// where a cutoff of exactly `now - 30 days` would drop it.
pub open spec fn retention_cutoff(now_ms: u64) -> u64 {
    (sat_sub(now_ms, RETENTION_MS) - sat_sub(now_ms, RETENTION_MS) % CLEANUP_INTERVAL_MS) as u64
}

/// The entries after a cleanup at `now_ms`.
pub open spec fn cleaned_entries(s: Seq<ExecutionLogEntry>, now_ms: u64) -> Seq<ExecutionLogEntry> {
    newest(kept_since(s, retention_cutoff(now_ms)))
}

proof fn lemma_kept_since_len(s: Seq<ExecutionLogEntry>, cutoff: u64)
    ensures
        kept_since(s, cutoff).len() <= s.len(),
        forall|i: int|
            0 <= i < kept_since(s, cutoff).len() ==> (#[trigger] kept_since(s, cutoff)[i]).timestamp_ms
                >= cutoff,
    decreases s.len(),
{
    if s.len() > 0 {
        lemma_kept_since_len(s.drop_last(), cutoff);
        let p = kept_since(s.drop_last(), cutoff);
        assert forall|i: int|
            0 <= i < kept_since(s, cutoff).len() implies (#[trigger] kept_since(
            s,
            cutoff,
        )[i]).timestamp_ms >= cutoff by {
            if i < p.len() {
                assert(kept_since(s, cutoff)[i] == p[i]);
            }
        }
    }
}

/// Lazy cleanup: when more than 24 hours passed since the last cleanup, drops
/// entries stamped before the day 30 days back, keeps the newest 1000 of the rest and records
/// `now_ms` as the cleanup time; otherwise leaves the store unchanged.
pub fn maybe_cleanup(store: &mut ExecutionLogStore, now_ms: u64)
    ensures
        cleanup_due(old(store).last_cleanup_ms, now_ms) ==> final(store).entries@ == cleaned_entries(
            old(store).entries@,
            now_ms,
        ) && final(store).last_cleanup_ms == now_ms,
        !cleanup_due(old(store).last_cleanup_ms, now_ms) ==> final(store).entries@ == old(
            store,
        ).entries@ && final(store).last_cleanup_ms == old(store).last_cleanup_ms,
{
    if now_ms.saturating_sub(store.last_cleanup_ms) <= CLEANUP_INTERVAL_MS {
        return;
    }
    let back = now_ms.saturating_sub(RETENTION_MS);
    assert(back % CLEANUP_INTERVAL_MS <= back) by (nonlinear_arith)
        requires
            CLEANUP_INTERVAL_MS > 0,
    ;
    let cutoff = back - back % CLEANUP_INTERVAL_MS;
    let mut all: Vec<ExecutionLogEntry> = Vec::new();
    std::mem::swap(&mut all, &mut store.entries);
    let ghost orig = all@;
    let mut kept: Vec<ExecutionLogEntry> = Vec::new();
    for e in it: all.into_iter()
        invariant
            it.seq() == orig,
            kept@ == kept_since(orig.take(it.index() as int), cutoff),
    {
        proof {
            let i = it.index() as int;
            assert(orig.take(i + 1).drop_last() =~= orig.take(i));
            assert(orig.take(i + 1).last() == e);
        }
        if e.timestamp_ms >= cutoff {
            kept.push(e);
        }
    }
    proof {
        assert(orig.take(orig.len() as int) =~= orig);
    }
    if kept.len() > MAX_ENTRIES {
        let excess = kept.len() - MAX_ENTRIES;
        let tail = kept.split_off(excess);
        kept = tail;
    }
    store.entries = kept;
    store.last_cleanup_ms = now_ms;
}

/// Law: after a cleanup the log holds at most `MAX_ENTRIES` entries, all
/// stamped within the retention window (no earlier than the start of the day
/// 30 days back, which is less than one day before `now_ms - 30 days`).
pub proof fn lemma_cleanup_bounded(s: Seq<ExecutionLogEntry>, now_ms: u64)
    ensures
        cleaned_entries(s, now_ms).len() <= MAX_ENTRIES,
        retention_cutoff(now_ms) <= sat_sub(now_ms, RETENTION_MS) < retention_cutoff(now_ms)
            + CLEANUP_INTERVAL_MS,
        forall|i: int|
            0 <= i < cleaned_entries(s, now_ms).len() ==> (#[trigger] cleaned_entries(s, now_ms)[i]).timestamp_ms
                >= retention_cutoff(now_ms),
{
    let b = sat_sub(now_ms, RETENTION_MS);
    assert(b % CLEANUP_INTERVAL_MS <= b && b % CLEANUP_INTERVAL_MS < CLEANUP_INTERVAL_MS) by (nonlinear_arith)
        requires
            CLEANUP_INTERVAL_MS > 0,
    ;
    let k = kept_since(s, retention_cutoff(now_ms));
    lemma_kept_since_len(s, retention_cutoff(now_ms));
    assert forall|i: int| 0 <= i < cleaned_entries(s, now_ms).len() implies (
    #[trigger] cleaned_entries(s, now_ms)[i]).timestamp_ms >= retention_cutoff(now_ms) by {
        if k.len() > MAX_ENTRIES {
            assert(cleaned_entries(s, now_ms)[i] == k[i + (k.len() - MAX_ENTRIES)]);
        }
    }
}

/// Law: the entry just appended is kept, as the newest one, whether or not
/// the append triggers a cleanup (its own time stamp is the cleanup time).
pub proof fn lemma_appended_entry_kept(last_cleanup_ms: u64, s: Seq<ExecutionLogEntry>, e: ExecutionLogEntry)
    ensures
        after_cleanup(last_cleanup_ms, s.push(e), e.timestamp_ms).1.len() > 0,
        after_cleanup(last_cleanup_ms, s.push(e), e.timestamp_ms).1.last() == e,
{
    let now = e.timestamp_ms;
    if cleanup_due(last_cleanup_ms, now) {
        lemma_cleanup_bounded(s.push(e), now);
        let t = s.push(e);
        assert(t.drop_last() =~= s);
        let k = kept_since(t, retention_cutoff(now));
        assert(k == kept_since(s, retention_cutoff(now)).push(e));
        if k.len() > MAX_ENTRIES {
            assert(newest(k).last() == k.last());
        }
    }
}

// ─── output summaries ───

/// The marker placed between the kept head and tail.
pub open spec fn cut_marker() -> Seq<char> {
    "…[截断]…"@
}

/// Head-and-tail truncation: text of at most `head + tail` characters is kept
/// whole; longer text keeps its first `head` and last `tail` characters with
/// the marker between them.
pub open spec fn truncated_middle(text: Seq<char>, head: nat, tail: nat) -> Seq<char> {
    if text.len() <= head + tail {
        text
    } else {
        text.take(head as int) + cut_marker() + text.skip(text.len() - tail)
    }
}

/// Keeps the first `head` and the last `tail` characters of `text` with
/// `…[截断]…` between them; text of at most `head + tail` characters is
/// returned unchanged. Cuts fall on character boundaries.
pub fn truncate_middle(text: &str, head: usize, tail: usize) -> (r: String)
    requires
        head + tail <= usize::MAX,
    ensures
        r@ == truncated_middle(text@, head as nat, tail as nat),
{
    let chars = chars_of(text);
    if chars.len() <= head + tail {
        return string_of(chars.as_slice());
    }
    let mut out = crate::text::slice_chars(chars.as_slice(), 0, head);
    push_str(&mut out, "…[截断]…");
    let tail_part = crate::text::slice_chars(chars.as_slice(), chars.len() - tail, chars.len());
    push_all(&mut out, tail_part.as_slice());
    proof {
        assert(chars@.subrange(0, head as int) =~= chars@.take(head as int));
        assert(chars@.subrange(chars@.len() - tail, chars@.len() as int) =~= chars@.skip(
            chars@.len() - tail,
        ));
    }
    string_of(out.as_slice())
}

/// Output summary for the execution log: the first 250 and last 250 characters
/// (errors usually sit at the end of the output).
pub fn summarize_output(text: &str) -> (r: String)
    ensures
        r@ == truncated_middle(text@, 250, 250),
{
    truncate_middle(text, 250, 250)
}

// ─── listing order ───

/// Code-point lexicographic order (`Ord` for `str`): `a` sorts strictly before `b`.
pub open spec fn lex_lt(a: Seq<char>, b: Seq<char>) -> bool
    decreases a.len(),
{
    if a.len() == 0 {
        b.len() > 0
    } else if b.len() == 0 {
        false
    } else if a[0] != b[0] {
        a[0] < b[0]
    } else {
        lex_lt(a.drop_first(), b.drop_first())
    }
}

/// `x` is listed before `y`: newer first, and for equal times the greater id first.
pub open spec fn listed_before(x: ExecutionLogEntry, y: ExecutionLogEntry) -> bool {
    x.timestamp_ms > y.timestamp_ms || (x.timestamp_ms == y.timestamp_ms && lex_lt(y.id@, x.id@))
}

/// `x` may stand before `y` in the listing (it is not listed after it).
pub open spec fn listed_no_later(x: ExecutionLogEntry, y: ExecutionLogEntry) -> bool {
    !listed_before(y, x)
}

pub open spec fn listing_ordered(s: Seq<ExecutionLogEntry>) -> bool {
    forall|i: int, j: int| 0 <= i < j < s.len() ==> listed_no_later(#[trigger] s[i], #[trigger] s[j])
}

pub(crate) fn lex_lt_exec(a: &[char], b: &[char]) -> (r: bool)
    ensures
        r == lex_lt(a@, b@),
{
    let mut i: usize = 0;
    assert(a@.skip(0) =~= a@ && b@.skip(0) =~= b@);
    while i < a.len() && i < b.len() && a[i] == b[i]
        invariant
            i <= a@.len(),
            i <= b@.len(),
            lex_lt(a@, b@) == lex_lt(a@.skip(i as int), b@.skip(i as int)),
        decreases a.len() - i,
    {
        assert(a@.skip(i as int).drop_first() =~= a@.skip(i + 1));
        assert(b@.skip(i as int).drop_first() =~= b@.skip(i + 1));
        i += 1;
    }
    if i == a.len() {
        i < b.len()
    } else if i == b.len() {
        false
    } else {
        assert(a@.skip(i as int)[0] == a@[i as int]);
        assert(b@.skip(i as int)[0] == b@[i as int]);
        a[i] < b[i]
    }
}

fn listed_before_exec(x: &ExecutionLogEntry, y: &ExecutionLogEntry) -> (r: bool)
    ensures
        r == listed_before(*x, *y),
{
    if x.timestamp_ms != y.timestamp_ms {
        return x.timestamp_ms > y.timestamp_ms;
    }
    let xi = chars_of(x.id.as_str());
    let yi = chars_of(y.id.as_str());
    lex_lt_exec(yi.as_slice(), xi.as_slice())
}

pub(crate) proof fn lemma_lex_lt_asym(a: Seq<char>, b: Seq<char>)
    ensures
        !(lex_lt(a, b) && lex_lt(b, a)),
    decreases a.len(),
{
    if a.len() > 0 && b.len() > 0 && a[0] == b[0] {
        lemma_lex_lt_asym(a.drop_first(), b.drop_first());
    }
}

pub(crate) proof fn lemma_lex_lt_trans(a: Seq<char>, b: Seq<char>, c: Seq<char>)
    requires
        lex_lt(a, b),
        lex_lt(b, c),
    ensures
        lex_lt(a, c),
    decreases a.len(),
{
    if a.len() > 0 && b.len() > 0 && c.len() > 0 && a[0] == b[0] && b[0] == c[0] {
        lemma_lex_lt_trans(a.drop_first(), b.drop_first(), c.drop_first());
    }
}

/// `lex_lt` is a strict total order on the contents: two sequences neither of
/// which is before the other are equal.
pub(crate) proof fn lemma_lex_lt_total(a: Seq<char>, b: Seq<char>)
    requires
        !lex_lt(a, b),
        !lex_lt(b, a),
    ensures
        a == b,
    decreases a.len(),
{
    if a.len() > 0 && b.len() > 0 {
        if a[0] == b[0] {
            lemma_lex_lt_total(a.drop_first(), b.drop_first());
            assert(a =~= seq![a[0]] + a.drop_first());
            assert(b =~= seq![b[0]] + b.drop_first());
        }
    } else {
        assert(a =~= b);
    }
}

proof fn lemma_listed_no_later_trans(x: ExecutionLogEntry, y: ExecutionLogEntry, z: ExecutionLogEntry)
    requires
        listed_no_later(x, y),
        listed_no_later(y, z),
    ensures
        listed_no_later(x, z),
{
    if x.timestamp_ms == z.timestamp_ms && lex_lt(x.id@, z.id@) {
        assert(y.timestamp_ms == x.timestamp_ms);
        if lex_lt(y.id@, x.id@) {
            lemma_lex_lt_trans(y.id@, x.id@, z.id@);
        } else {
            lemma_lex_lt_total(x.id@, y.id@);
        }
    }
}

/// The entries in listing order: newest first (ties: greater id first),
/// holding exactly the given entries.
pub fn sort_for_listing(entries: Vec<ExecutionLogEntry>) -> (r: Vec<ExecutionLogEntry>)
    ensures
        r@.to_multiset() == entries@.to_multiset(),
        listing_ordered(r@),
{
    broadcast use vstd::seq_lib::group_to_multiset_ensures;

    let ghost orig = entries@;
    let mut r: Vec<ExecutionLogEntry> = Vec::new();
    for e in it: entries.into_iter()
        invariant
            it.seq() == orig,
            r@.to_multiset() == orig.take(it.index() as int).to_multiset(),
            listing_ordered(r@),
    {
        let ghost i = it.index() as int;
        let mut p: usize = 0;
        while p < r.len() && !listed_before_exec(&e, &r[p])
            invariant
                p <= r@.len(),
                forall|k: int| 0 <= k < p ==> !listed_before(e, #[trigger] r@[k]),
            decreases r.len() - p,
        {
            p += 1;
        }
        let ghost before = r@;
        proof {
            assert forall|k: int| 0 <= k < p implies listed_no_later(#[trigger] before[k], e) by {
                assert(!listed_before(e, before[k]));
            }
            if p < before.len() {
                assert(listed_before(e, before[p as int]));
                assert forall|k: int| p <= k < before.len() implies listed_no_later(
                    e,
                    #[trigger] before[k],
                ) by {
                    if k > p {
                        assert(listed_no_later(before[p as int], before[k]));
                        lemma_entry_before_then_no_later(e, before[p as int], before[k]);
                    } else {
                        lemma_listed_before_no_later(e, before[k]);
                    }
                }
            }
        }
        r.insert(p, e);
        proof {
            assert(r@ == before.insert(p as int, e));
            assert(orig.take(i + 1) =~= orig.take(i).push(e));
            vstd::seq_lib::to_multiset_insert(before, p as int, e);
            vstd::seq_lib::to_multiset_build(orig.take(i), e);
            assert forall|a: int, b: int| 0 <= a < b < r@.len() implies listed_no_later(
                #[trigger] r@[a],
                #[trigger] r@[b],
            ) by {
                if a < p && b == p {
                } else if a == p && b > p {
                    assert(r@[b] == before[b - 1]);
                } else if a < p && b > p {
                    assert(r@[b] == before[b - 1]);
                    assert(r@[a] == before[a]);
                } else if b < p {
                    assert(r@[b] == before[b]);
                    assert(r@[a] == before[a]);
                } else {
                    assert(r@[b] == before[b - 1]);
                    assert(r@[a] == before[a - 1]);
                }
            }
        }
    }
    proof {
        assert(orig.take(orig.len() as int) =~= orig);
    }
    r
}

proof fn lemma_entry_before_then_no_later(e: ExecutionLogEntry, x: ExecutionLogEntry, y: ExecutionLogEntry)
    requires
        listed_before(e, x),
        listed_no_later(x, y),
    ensures
        listed_no_later(e, y),
{
    lemma_listed_before_no_later(e, x);
    lemma_listed_no_later_trans(e, x, y);
}

proof fn lemma_listed_before_no_later(x: ExecutionLogEntry, y: ExecutionLogEntry)
    requires
        listed_before(x, y),
    ensures
        listed_no_later(x, y),
{
    if listed_before(y, x) {
        lemma_lex_lt_asym(x.id@, y.id@);
    }
}

// ─── decision and outcome values ───

/// A tool that needs no approval.
pub const NOT_REQUIRED: &'static str = "not_required";
/// The read-only whitelist matched.
pub const AUTO_APPROVED: &'static str = "auto_approved";
/// `Minimal` let the call run.
pub const MINIMAL_ALLOWED: &'static str = "minimal_allowed";
/// A catastrophic command, refused without asking.
pub const HARD_BLOCKED: &'static str = "hard_blocked";
/// Confirmed in the client's elicitation dialog.
pub const ELICITATION_ACCEPTED: &'static str = "elicitation_accepted";
/// Refused in the client's elicitation dialog.
pub const ELICITATION_DECLINED: &'static str = "elicitation_declined";
/// Confirmed in the GUI dialog.
pub const GUI_ACCEPTED: &'static str = "gui_accepted";
/// Refused in the GUI dialog.
pub const GUI_DECLINED: &'static str = "gui_declined";
/// No approval channel: refused (fail-secure).
pub const REJECTED: &'static str = "rejected";
/// The GUI dialog went unanswered for 60 s.
pub const TIMEOUT: &'static str = "timeout";
/// Outside the authorised scope.
pub const SCOPE_DENIED: &'static str = "scope_denied";

/// The channel ran the call.
pub const OUTCOME_OK: &'static str = "ok";
/// The call returned an error.
pub const OUTCOME_ERROR: &'static str = "error";
/// The call was not run.
pub const OUTCOME_SKIPPED: &'static str = "skipped";

/// The outcome logged for a call that ran.
pub fn call_outcome(is_error: bool) -> (r: &'static str)
    ensures
        r@ == (if is_error {
            "error"@
        } else {
            "ok"@
        }),
{
    if is_error {
        OUTCOME_ERROR
    } else {
        OUTCOME_OK
    }
}

/// What the log keeps of a call's output: a successful `sftp_read_file` keeps
/// only the size of what was read (in UTF-8 bytes), never the file itself.
pub open spec fn logged_output(tool: Seq<char>, is_error: bool, raw: Seq<char>) -> Seq<char> {
    if tool == "sftp_read_file"@ && !is_error {
        "[文件内容已脱敏：读取成功，共 "@ + crate::text::decimal(crate::codec::utf8_bytes(raw)) + " 字符]"@
    } else {
        raw
    }
}

pub fn log_output_text(tool: &str, is_error: bool, raw: String) -> (r: String)
    ensures
        r@ == logged_output(tool@, is_error, raw@),
{
    if crate::text::same_text(tool, "sftp_read_file") && !is_error {
        let n = crate::codec::utf8_byte_len(raw.as_str());
        let mut v = chars_of("[文件内容已脱敏：读取成功，共 ");
        crate::text::push_decimal(&mut v, n);
        push_str(&mut v, " 字符]");
        string_of(v.as_slice())
    } else {
        raw
    }
}

// ─── appending and clearing ───

/// The store after a cleanup attempt at `now_ms`.
pub open spec fn after_cleanup(last: u64, entries: Seq<ExecutionLogEntry>, now_ms: u64) -> (u64, Seq<ExecutionLogEntry>) {
    if cleanup_due(last, now_ms) {
        (now_ms, cleaned_entries(entries, now_ms))
    } else {
        (last, entries)
    }
}

/// The file as the listing found it.
pub enum LoadOutcome {
    /// No file, or an empty file: a fresh log.
    Fresh,
    /// The file was read (a corrupt file has been quarantined and reads as empty).
    Loaded(ExecutionLogStore),
    /// The file exists but cannot be read; the reason is attached.
    Unreadable(String),
}

/// The store to save after appending `entry` (stamped `timestamp_ms`, which
/// is also the time of the cleanup check); `None` for an unreadable file,
/// which must not be overwritten (the entry is dropped).
pub fn appended_store(loaded: LoadOutcome, entry: ExecutionLogEntry) -> (r: Option<ExecutionLogStore>)
    ensures
        match loaded {
            LoadOutcome::Unreadable(_) => r is None,
            LoadOutcome::Fresh => r matches Some(s) && (s.last_cleanup_ms, s.entries@) == after_cleanup(
                0,
                seq![entry],
                entry.timestamp_ms,
            ),
            LoadOutcome::Loaded(st) => r matches Some(s) && (s.last_cleanup_ms, s.entries@)
                == after_cleanup(st.last_cleanup_ms, st.entries@.push(entry), entry.timestamp_ms),
        },
{
    let now = entry.timestamp_ms;
    let ghost e = entry;
    match loaded {
        LoadOutcome::Unreadable(_) => None,
        LoadOutcome::Fresh => {
            let mut store = ExecutionLogStore::new();
            store.entries.push(entry);
            proof {
                assert(store.entries@ =~= seq![e]);
            }
            maybe_cleanup(&mut store, now);
            Some(store)
        },
        LoadOutcome::Loaded(st) => {
            let mut store = st;
            store.entries.push(entry);
            maybe_cleanup(&mut store, now);
            Some(store)
        },
    }
}

pub open spec fn clear_refused_text(reason: Seq<char>, path: Seq<char>) -> Seq<char> {
    "执行日志文件读取失败（"@ + reason + "），已拒绝清空以免抹掉无法确认的历史内容；文件路径 "@ + path
        + "，请先手动处理（重命名/删除）后重试"@
}

/// The store to save when clearing the log at `now_ms`: no entries, cleaned
/// now. An unreadable file is not cleared (its history cannot be checked).
pub fn cleared_store(loaded: LoadOutcome, now_ms: u64, path: &str) -> (r: Result<ExecutionLogStore, String>)
    ensures
        match loaded {
            LoadOutcome::Unreadable(reason) => r matches Err(e) && e@ == clear_refused_text(
                reason@,
                path@,
            ),
            _ => r matches Ok(s) && s.entries@.len() == 0 && s.last_cleanup_ms == now_ms,
        },
{
    match loaded {
        LoadOutcome::Unreadable(reason) => {
            let mut v = chars_of("执行日志文件读取失败（");
            push_str(&mut v, reason.as_str());
            push_str(&mut v, "），已拒绝清空以免抹掉无法确认的历史内容；文件路径 ");
            push_str(&mut v, path);
            push_str(&mut v, "，请先手动处理（重命名/删除）后重试");
            assert(v@ =~= clear_refused_text(reason@, path@));
            Err(string_of(v.as_slice()))
        },
        _ => Ok(ExecutionLogStore { last_cleanup_ms: now_ms, entries: Vec::new() }),
    }
}

/// The most recent entries: listing order (newest first, ties by id), at most
/// `limit` of them. An unreadable file lists nothing.
pub fn list_entries(loaded: LoadOutcome, limit: usize) -> (r: Vec<ExecutionLogEntry>)
    ensures
        match loaded {
            LoadOutcome::Loaded(store) => {
                &&& listing_ordered(r@)
                &&& r@.len() == if store.entries@.len() < limit {
                    store.entries@.len()
                } else {
                    limit as nat
                }
                &&& exists|full: Seq<ExecutionLogEntry>|
                    full.to_multiset() == store.entries@.to_multiset() && listing_ordered(full)
                        && r@ == full.take(r@.len() as int)
            },
            _ => r@.len() == 0,
        },
{
    match loaded {
        LoadOutcome::Loaded(store) => {
            let mut sorted = sort_for_listing(store.entries);
            let ghost full = sorted@;
            proof {
                vstd::seq_lib::lemma_multiset_commutative(full, Seq::<ExecutionLogEntry>::empty());
                broadcast use vstd::seq_lib::group_to_multiset_ensures;
                assert(full.to_multiset().len() == full.len());
            }
            sorted.truncate(limit);
            proof {
                assert(sorted@ =~= full.take(sorted@.len() as int));
                assert forall|i: int, j: int| 0 <= i < j < sorted@.len() implies listed_no_later(
                    #[trigger] sorted@[i],
                    #[trigger] sorted@[j],
                ) by {
                    assert(sorted@[i] == full[i] && sorted@[j] == full[j]);
                }
            }
            sorted
        },
        _ => Vec::new(),
    }
}

} // verus!
