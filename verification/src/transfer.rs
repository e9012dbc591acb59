//! SFTP transfers: the table of in-flight transfers that can be cancelled,
//! and the per-chunk bookkeeping of the upload and download loops (progress
//! events are throttled to one per MiB and 200 ms, plus a final one).
use vstd::prelude::*;

use crate::text::{chars_of, push_str, same_text, string_of};

verus! {

/// Read size of a download chunk (64 KiB).
pub const DOWNLOAD_CHUNK_SIZE: usize = 65536;

/// Read size of an upload chunk (1 MiB).
pub const UPLOAD_CHUNK_SIZE: usize = 1048576;

/// A progress event needs at least this many new bytes...
pub const PROGRESS_EMIT_MIN_BYTES: u64 = 1048576;

/// ...and at least this many milliseconds since the last one.
pub const PROGRESS_EMIT_MIN_INTERVAL_MS: u64 = 200;

/// An in-flight transfer that can be cancelled.
pub struct TransferCancelEntry {
    pub transfer_id: String,
    pub session_id: String,
    /// Identifies this registration (a later one under the same id differs).
    pub ticket: u64,
    pub cancelled: bool,
}

/// The in-flight transfers.
pub struct TransferCancels {
    pub entries: Vec<TransferCancelEntry>,
    pub next_ticket: u64,
}

/// Position of the first entry for `id`.
pub open spec fn entry_pos(s: Seq<TransferCancelEntry>, id: Seq<char>) -> Option<int>
    decreases s.len(),
{
    if s.len() == 0 {
        None
    } else if s[0].transfer_id@ == id {
        Some(0)
    } else {
        match entry_pos(s.drop_first(), id) {
            Some(i) => Some(i + 1),
            None => None,
        }
    }
}

proof fn lemma_entry_pos(s: Seq<TransferCancelEntry>, id: Seq<char>, i: int)
    requires
        0 <= i <= s.len(),
        forall|j: int| 0 <= j < i ==> (#[trigger] s[j]).transfer_id@ != id,
        i < s.len() ==> s[i].transfer_id@ == id,
    ensures
        entry_pos(s, id) == (if i < s.len() {
            Some(i)
        } else {
            None::<int>
        }),
    decreases s.len(),
{
    if s.len() > 0 && i > 0 {
        let t = s.drop_first();
        assert forall|j: int| 0 <= j < i - 1 implies (#[trigger] t[j]).transfer_id@ != id by {
            assert(t[j] == s[j + 1]);
        }
        lemma_entry_pos(t, id, i - 1);
    }
}

fn find_entry(v: &Vec<TransferCancelEntry>, id: &str) -> (r: Option<usize>)
    ensures
        match r {
            Some(i) => entry_pos(v@, id@) == Some(i as int) && i < v@.len(),
            None => entry_pos(v@, id@) is None,
        },
{
    let mut i: usize = 0;
    while i < v.len()
        invariant
            i <= v@.len(),
            forall|j: int| 0 <= j < i ==> (#[trigger] v@[j]).transfer_id@ != id@,
        decreases v.len() - i,
    {
        if same_text(v[i].transfer_id.as_str(), id) {
            proof {
                lemma_entry_pos(v@, id@, i as int);
            }
            return Some(i);
        }
        i += 1;
    }
    proof {
        lemma_entry_pos(v@, id@, v@.len() as int);
    }
    None
}

/// Tickets are below `next_ticket` (so a new one is fresh).
pub open spec fn tickets_below(t: TransferCancels) -> bool {
    forall|j: int| 0 <= j < t.entries@.len() ==> (#[trigger] t.entries@[j]).ticket < t.next_ticket
}

pub open spec fn upload_busy_text(id: Seq<char>) -> Seq<char> {
    "transfer_id "@ + id + " already in progress"@
}

pub open spec fn upload_session_gone_text(session: Seq<char>) -> Seq<char> {
    "session "@ + session + " closed during upload start"@
}

pub open spec fn download_busy_text(id: Seq<char>) -> Seq<char> {
    "transfer "@ + id + " already in flight"@
}

/// `b` is `a` with a fresh entry for `id` of `session` holding `ticket`.
pub open spec fn appended_entry(a: TransferCancels, b: TransferCancels, id: Seq<char>, session: Seq<char>, ticket: u64) -> bool {
    &&& ticket == a.next_ticket
    &&& b.entries@.len() == a.entries@.len() + 1
    &&& b.entries@.drop_last() == a.entries@
    &&& b.entries@.last().transfer_id@ == id
    &&& b.entries@.last().session_id@ == session
    &&& b.entries@.last().ticket == ticket
    &&& !b.entries@.last().cancelled
}

impl TransferCancels {
    pub fn new() -> (t: Self)
        ensures
            t.entries@.len() == 0,
            tickets_below(t),
    {
        TransferCancels { entries: Vec::new(), next_ticket: 0 }
    }

    fn add(&mut self, transfer_id: &str, session_id: &str) -> (ticket: u64)
        requires
            old(self).next_ticket < u64::MAX,
            tickets_below(*old(self)),
        ensures
            ticket == old(self).next_ticket,
            final(self).next_ticket == ticket + 1,
            final(self).entries@.len() == old(self).entries@.len() + 1,
            final(self).entries@.drop_last() == old(self).entries@,
            final(self).entries@.last().transfer_id@ == transfer_id@,
            final(self).entries@.last().session_id@ == session_id@,
            final(self).entries@.last().ticket == ticket,
            !final(self).entries@.last().cancelled,
            tickets_below(*final(self)),
    {
        let ticket = self.next_ticket;
        self.entries.push(
            TransferCancelEntry {
                transfer_id: transfer_id.to_owned(),
                session_id: session_id.to_owned(),
                ticket,
                cancelled: false,
            },
        );
        self.next_ticket = ticket + 1;
        assert(self.entries@.drop_last() =~= old(self).entries@);
        ticket
    }

    /// Registers an upload; refused when the id is in flight or the session
    /// is gone.
    pub fn register_upload(&mut self, transfer_id: &str, session_id: &str, session_alive: bool) -> (r:
        Result<u64, String>)
        requires
            old(self).next_ticket < u64::MAX,
            tickets_below(*old(self)),
        ensures
            tickets_below(*final(self)),
            entry_pos(old(self).entries@, transfer_id@) is Some ==> (r matches Err(e) && e@
                == upload_busy_text(transfer_id@) && *final(self) == *old(self)),
            entry_pos(old(self).entries@, transfer_id@) is None && !session_alive ==> (r matches Err(
                e,
            ) && e@ == upload_session_gone_text(session_id@) && *final(self) == *old(self)),
            entry_pos(old(self).entries@, transfer_id@) is None && session_alive ==> (r matches Ok(
                t,
            ) && appended_entry(*old(self), *final(self), transfer_id@, session_id@, t)),
    {
        if find_entry(&self.entries, transfer_id).is_some() {
            let mut m = chars_of("transfer_id ");
            push_str(&mut m, transfer_id);
            push_str(&mut m, " already in progress");
            assert(m@ =~= upload_busy_text(transfer_id@));
            return Err(string_of(m.as_slice()));
        }
        if !session_alive {
            let mut m = chars_of("session ");
            push_str(&mut m, session_id);
            push_str(&mut m, " closed during upload start");
            assert(m@ =~= upload_session_gone_text(session_id@));
            return Err(string_of(m.as_slice()));
        }
        Ok(self.add(transfer_id, session_id))
    }

    /// Registers a download; refused when the id is in flight.
    pub fn register_download(&mut self, transfer_id: &str, session_id: &str) -> (r: Result<u64, String>)
        requires
            old(self).next_ticket < u64::MAX,
            tickets_below(*old(self)),
        ensures
            tickets_below(*final(self)),
            entry_pos(old(self).entries@, transfer_id@) is Some ==> (r matches Err(e) && e@
                == download_busy_text(transfer_id@) && *final(self) == *old(self)),
            entry_pos(old(self).entries@, transfer_id@) is None ==> (r matches Ok(t)
                && appended_entry(*old(self), *final(self), transfer_id@, session_id@, t)),
    {
        if find_entry(&self.entries, transfer_id).is_some() {
            let mut m = chars_of("transfer ");
            push_str(&mut m, transfer_id);
            push_str(&mut m, " already in flight");
            assert(m@ =~= download_busy_text(transfer_id@));
            return Err(string_of(m.as_slice()));
        }
        Ok(self.add(transfer_id, session_id))
    }

    /// Asks to cancel transfer `transfer_id`; an unknown id is no error (the
    /// transfer may just have ended).
    pub fn request_cancel(&mut self, transfer_id: &str)
        ensures
            final(self).next_ticket == old(self).next_ticket,
            match entry_pos(old(self).entries@, transfer_id@) {
                None => final(self).entries@ == old(self).entries@,
                Some(i) => final(self).entries@ == old(self).entries@.update(
                    i,
                    TransferCancelEntry { cancelled: true, ..old(self).entries@[i] },
                ),
            },
    {
        match find_entry(&self.entries, transfer_id) {
            None => {},
            Some(i) => {
                let mut e = self.entries.remove(i);
                e.cancelled = true;
                self.entries.insert(i, e);
                assert(self.entries@ =~= old(self).entries@.update(
                    i as int,
                    TransferCancelEntry { cancelled: true, ..old(self).entries@[i as int] },
                ));
            },
        }
    }

    /// Whether the transfer holding `ticket` must stop: it was cancelled, or
    /// its session was cleaned up (its entry is gone).
    pub fn is_cancelled(&self, ticket: u64) -> (b: bool)
        ensures
            b == ticket_stopped(self.entries@, ticket),
    {
        let mut i: usize = 0;
        while i < self.entries.len()
            invariant
                i <= self.entries@.len(),
                forall|j: int|
                    0 <= j < i ==> !((#[trigger] self.entries@[j]).ticket == ticket
                        && !self.entries@[j].cancelled),
            decreases self.entries.len() - i,
        {
            if self.entries[i].ticket == ticket && !self.entries[i].cancelled {
                return false;
            }
            i += 1;
        }
        true
    }

    /// Removes the entry of `transfer_id` when it is still the one holding
    /// `ticket` (a later transfer under the same id stays).
    pub fn release(&mut self, transfer_id: &str, ticket: u64)
        ensures
            final(self).next_ticket == old(self).next_ticket,
            match entry_pos(old(self).entries@, transfer_id@) {
                Some(i) => if old(self).entries@[i].ticket == ticket {
                    final(self).entries@ == old(self).entries@.remove(i)
                } else {
                    final(self).entries@ == old(self).entries@
                },
                None => final(self).entries@ == old(self).entries@,
            },
    {
        match find_entry(&self.entries, transfer_id) {
            Some(i) => {
                if self.entries[i].ticket == ticket {
                    self.entries.remove(i);
                }
            },
            None => {},
        }
    }

    /// Removes the entry of `transfer_id`, whoever holds it.
    pub fn remove(&mut self, transfer_id: &str)
        ensures
            final(self).next_ticket == old(self).next_ticket,
            match entry_pos(old(self).entries@, transfer_id@) {
                Some(i) => final(self).entries@ == old(self).entries@.remove(i),
                None => final(self).entries@ == old(self).entries@,
            },
    {
        match find_entry(&self.entries, transfer_id) {
            Some(i) => {
                self.entries.remove(i);
            },
            None => {},
        }
    }

    /// A session went away: its transfers are dropped from the table (which
    /// cancels them) and the others stay, in order.
    pub fn drop_session(&mut self, session_id: &str)
        ensures
            final(self).next_ticket == old(self).next_ticket,
            final(self).entries@ == old(self).entries@.filter(
                |e: TransferCancelEntry| e.session_id@ != session_id@,
            ),
    {
        let mut all: Vec<TransferCancelEntry> = Vec::new();
        std::mem::swap(&mut all, &mut self.entries);
        let ghost orig = all@;
        let mut kept: Vec<TransferCancelEntry> = Vec::new();
        for e in it: all.into_iter()
            invariant
                it.seq() == orig,
                kept@ == orig.take(it.index() as int).filter(
                    |e: TransferCancelEntry| e.session_id@ != session_id@,
                ),
        {
            proof {
                let i = it.index() as int;
                assert(orig.take(i + 1).drop_last() =~= orig.take(i));
                assert(orig.take(i + 1).last() == e);
                assert(orig.take(i + 1) =~= orig.take(i).push(e));
                orig.take(i).lemma_filter_push(e, |e: TransferCancelEntry| e.session_id@ != session_id@);
            }
            if !same_text(e.session_id.as_str(), session_id) {
                kept.push(e);
            }
        }
        proof {
            assert(orig.take(orig.len() as int) =~= orig);
        }
        self.entries = kept;
    }
}

/// Whether the transfer holding `ticket` must stop.
pub open spec fn ticket_stopped(s: Seq<TransferCancelEntry>, ticket: u64) -> bool {
    !(exists|j: int| 0 <= j < s.len() && (#[trigger] s[j]).ticket == ticket && !s[j].cancelled)
}

/// Law: a cancel request reaches the running transfer. When the entry of `id`
/// (at `i`) holds `ticket` and no other entry does, the transfer holding the
/// ticket stops once the request was made.
pub proof fn lemma_cancel_reaches_transfer(entries: Seq<TransferCancelEntry>, id: Seq<char>, i: int, ticket: u64)
    requires
        entry_pos(entries, id) == Some(i),
        entries[i].ticket == ticket,
        forall|j: int| 0 <= j < entries.len() && (#[trigger] entries[j]).ticket == ticket ==> j == i,
    ensures
        ticket_stopped(entries.update(i, TransferCancelEntry { cancelled: true, ..entries[i] }), ticket),
{
    lemma_entry_pos_range(entries, id);
    let t = entries.update(i, TransferCancelEntry { cancelled: true, ..entries[i] });
    assert forall|j: int| 0 <= j < t.len() && (#[trigger] t[j]).ticket == ticket implies t[j].cancelled by {
        if j != i {
            assert(t[j] == entries[j]);
        }
    }
}

proof fn lemma_entry_pos_range(s: Seq<TransferCancelEntry>, id: Seq<char>)
    ensures
        entry_pos(s, id) matches Some(i) ==> 0 <= i < s.len(),
    decreases s.len(),
{
    if s.len() > 0 {
        lemma_entry_pos_range(s.drop_first(), id);
    }
}

// ─── chunk loop ───

/// Progress of a transfer: bytes written and bytes at the last event.
pub struct TransferProgress {
    pub written: u64,
    pub last_emit_bytes: u64,
}

/// An event is due after at least 1 MiB more and at least 200 ms.
pub open spec fn progress_due(written: u64, last_emit_bytes: u64, elapsed_ms: u64) -> bool {
    written - last_emit_bytes >= PROGRESS_EMIT_MIN_BYTES && elapsed_ms
        >= PROGRESS_EMIT_MIN_INTERVAL_MS
}

impl TransferProgress {
    pub fn new() -> (p: Self)
        ensures
            p.written == 0,
            p.last_emit_bytes == 0,
    {
        TransferProgress { written: 0, last_emit_bytes: 0 }
    }

    /// Accounts for `n` more bytes written, `elapsed_ms` after the last event;
    /// `true` when a progress event is due now (it is then recorded as sent).
    pub fn after_chunk(&mut self, n: usize, elapsed_ms: u64) -> (emit: bool)
        requires
            old(self).last_emit_bytes <= old(self).written,
            old(self).written + n <= u64::MAX,
        ensures
            final(self).written == old(self).written + n,
            emit == progress_due(final(self).written, old(self).last_emit_bytes, elapsed_ms),
            final(self).last_emit_bytes == (if emit {
                final(self).written
            } else {
                old(self).last_emit_bytes
            }),
            final(self).last_emit_bytes <= final(self).written,
    {
        self.written = self.written + n as u64;
        let due = self.written - self.last_emit_bytes >= PROGRESS_EMIT_MIN_BYTES && elapsed_ms
            >= PROGRESS_EMIT_MIN_INTERVAL_MS;
        if due {
            self.last_emit_bytes = self.written;
        }
        due
    }
}

/// The error a failed download reports: a cancellation is marked so that the
/// GUI tells it from a failure.
pub fn download_error(e: String) -> (r: String)
    ensures
        r@ == (if e@ == "download cancelled"@ {
            "[download:cancelled]"@
        } else {
            e@
        }),
{
    if same_text(e.as_str(), "download cancelled") {
        "[download:cancelled]".to_owned()
    } else {
        e
    }
}

} // verus!
