//! The resource monitors: which sessions are sampled, their last snapshot and
//! the CPU counters the next sample's delta is computed from, and how one
//! sample's output is gathered from its exec channel.
//!
//! Running the polling task, sending the sampling command and parsing the
//! `/proc` output are the caller's part; `C` is the handle that cancels a
//! monitor's task and `S` a parsed snapshot.
use vstd::prelude::*;

use crate::headless::ChannelEvent;
use crate::text::{chars_of, push_str, same_text, string_of};

verus! {

/// The polling interval: `interval_ms`, or 2000 ms when 0 is asked for.
pub fn monitor_interval(interval_ms: u64) -> (r: u64)
    ensures
        r == (if interval_ms == 0 {
            2000
        } else {
            interval_ms
        }),
{
    if interval_ms == 0 {
        2000
    } else {
        interval_ms
    }
}

/// One monitored session.
pub struct MonitorEntry<C, S> {
    pub session_id: String,
    pub cancel: C,
    pub last_snapshot: Option<S>,
    /// `(idle, total)` CPU jiffies of the previous sample.
    pub prev_cpu: Option<(u64, u64)>,
}

/// The monitored sessions.
pub struct MonitorRegistry<C, S> {
    entries: Vec<MonitorEntry<C, S>>,
}

impl<C, S> View for MonitorRegistry<C, S> {
    type V = Seq<MonitorEntry<C, S>>;

    closed spec fn view(&self) -> Seq<MonitorEntry<C, S>> {
        self.entries@
    }
}

/// Position of the monitor of `id`.
pub open spec fn monitor_pos<C, S>(s: Seq<MonitorEntry<C, S>>, id: Seq<char>) -> Option<int>
    decreases s.len(),
{
    if s.len() == 0 {
        None
    } else if s[0].session_id@ == id {
        Some(0)
    } else {
        match monitor_pos(s.drop_first(), id) {
            Some(i) => Some(i + 1),
            None => None,
        }
    }
}

proof fn lemma_monitor_pos<C, S>(s: Seq<MonitorEntry<C, S>>, id: Seq<char>, i: int)
    requires
        0 <= i <= s.len(),
        forall|j: int| 0 <= j < i ==> (#[trigger] s[j]).session_id@ != id,
        i < s.len() ==> s[i].session_id@ == id,
    ensures
        monitor_pos(s, id) == (if i < s.len() {
            Some(i)
        } else {
            None::<int>
        }),
    decreases s.len(),
{
    if s.len() > 0 && i > 0 {
        let t = s.drop_first();
        assert forall|j: int| 0 <= j < i - 1 implies (#[trigger] t[j]).session_id@ != id by {
            assert(t[j] == s[j + 1]);
        }
        lemma_monitor_pos(t, id, i - 1);
    }
}

pub open spec fn already_monitored_text(id: Seq<char>) -> Seq<char> {
    "resource_monitor_start: session "@ + id + " already monitored"@
}

fn find_monitor<C, S>(v: &Vec<MonitorEntry<C, S>>, id: &str) -> (r: Option<usize>)
    ensures
        match r {
            Some(i) => monitor_pos(v@, id@) == Some(i as int) && i < v@.len(),
            None => monitor_pos(v@, id@) is None,
        },
{
    let mut i: usize = 0;
    while i < v.len()
        invariant
            i <= v@.len(),
            forall|j: int| 0 <= j < i ==> (#[trigger] v@[j]).session_id@ != id@,
        decreases v.len() - i,
    {
        if same_text(v[i].session_id.as_str(), id) {
            proof {
                lemma_monitor_pos(v@, id@, i as int);
            }
            return Some(i);
        }
        i += 1;
    }
    proof {
        lemma_monitor_pos(v@, id@, v@.len() as int);
    }
    None
}

impl<C, S> MonitorRegistry<C, S> {
    /// No session monitored.
    pub fn new() -> (r: Self)
        ensures
            r@.len() == 0,
    {
        MonitorRegistry { entries: Vec::new() }
    }

    /// Starts monitoring `session_id` with the handle that cancels its task;
    /// a session already monitored is an error (stop it first).
    pub fn start(&mut self, session_id: String, cancel: C) -> (r: Result<(), String>)
        ensures
            match monitor_pos(old(self)@, session_id@) {
                Some(_) => (r matches Err(e) && e@ == already_monitored_text(session_id@))
                    && final(self)@ == old(self)@,
                None => r is Ok && final(self)@ == old(self)@.push(
                    MonitorEntry { session_id, cancel, last_snapshot: None, prev_cpu: None },
                ),
            },
    {
        match find_monitor(&self.entries, session_id.as_str()) {
            Some(_) => {
                let mut v = chars_of("resource_monitor_start: session ");
                push_str(&mut v, session_id.as_str());
                push_str(&mut v, " already monitored");
                Err(string_of(v.as_slice()))
            },
            None => {
                self.entries.push(
                    MonitorEntry { session_id, cancel, last_snapshot: None, prev_cpu: None },
                );
                Ok(())
            },
        }
    }

    /// Stops monitoring `session_id` and hands back its cancel handle (nothing
    /// when it was not monitored).
    pub fn stop(&mut self, session_id: &str) -> (r: Option<C>)
        ensures
            match monitor_pos(old(self)@, session_id@) {
                Some(i) => r == Some(old(self)@[i].cancel) && final(self)@ == old(self)@.remove(i),
                None => r is None && final(self)@ == old(self)@,
            },
    {
        match find_monitor(&self.entries, session_id) {
            Some(i) => {
                let e = self.entries.remove(i);
                Some(e.cancel)
            },
            None => None,
        }
    }

    /// The CPU counters of the previous sample of `session_id`.
    pub fn prev_cpu(&self, session_id: &str) -> (r: Option<(u64, u64)>)
        ensures
            match monitor_pos(self@, session_id@) {
                Some(i) => r == self@[i].prev_cpu,
                None => r is None,
            },
    {
        match find_monitor(&self.entries, session_id) {
            Some(i) => self.entries[i].prev_cpu,
            None => None,
        }
    }

    /// Keeps the snapshot just built for `session_id` and the CPU counters the
    /// next delta starts from; nothing happens when the monitor was stopped
    /// meanwhile.
    pub fn record_snapshot(&mut self, session_id: &str, snapshot: S, idle_total: (u64, u64))
        ensures
            match monitor_pos(old(self)@, session_id@) {
                Some(i) => final(self)@ == old(self)@.update(
                    i,
                    MonitorEntry {
                        last_snapshot: Some(snapshot),
                        prev_cpu: Some(idle_total),
                        ..old(self)@[i]
                    },
                ),
                None => final(self)@ == old(self)@,
            },
    {
        match find_monitor(&self.entries, session_id) {
            Some(i) => {
                let mut e = self.entries.remove(i);
                e.last_snapshot = Some(snapshot);
                e.prev_cpu = Some(idle_total);
                self.entries.insert(i, e);
                proof {
                    assert(self.entries@ =~= old(self)@.update(
                        i as int,
                        MonitorEntry {
                            last_snapshot: Some(snapshot),
                            prev_cpu: Some(idle_total),
                            ..old(self)@[i as int]
                        },
                    ));
                }
            },
            None => {},
        }
    }

    /// The last snapshot of `session_id`, if it is monitored and was sampled.
    pub fn last_snapshot(&self, session_id: &str) -> (r: Option<&S>)
        ensures
            match monitor_pos(self@, session_id@) {
                Some(i) => match self@[i].last_snapshot {
                    Some(s) => r matches Some(x) && *x == s,
                    None => r is None,
                },
                None => r is None,
            },
    {
        match find_monitor(&self.entries, session_id) {
            Some(i) => match &self.entries[i].last_snapshot {
                Some(s) => Some(s),
                None => None,
            },
            None => None,
        }
    }

    /// The monitored sessions, in the order they were started.
    pub fn active_sessions(&self) -> (r: Vec<String>)
        ensures
            r@.len() == self@.len(),
            forall|i: int| 0 <= i < r@.len() ==> (#[trigger] r@[i])@ == self@[i].session_id@,
    {
        let mut out: Vec<String> = Vec::new();
        let mut k: usize = 0;
        while k < self.entries.len()
            invariant
                k <= self@.len(),
                out@.len() == k,
                forall|i: int| 0 <= i < k ==> (#[trigger] out@[i])@ == self@[i].session_id@,
            decreases self.entries.len() - k,
        {
            out.push(self.entries[k].session_id.clone());
            k += 1;
        }
        out
    }
}

/// Law: a started monitor can be stopped, which hands back its cancel handle
/// and leaves the other monitors as they were.
pub proof fn lemma_start_then_stop<C, S>(
    s: Seq<MonitorEntry<C, S>>,
    id: Seq<char>,
    e: MonitorEntry<C, S>,
)
    requires
        monitor_pos(s, id) is None,
        e.session_id@ == id,
    ensures
        monitor_pos(s.push(e), id) == Some(s.len() as int),
        s.push(e).remove(s.len() as int) == s,
{
    let t = s.push(e);
    assert forall|j: int| 0 <= j < s.len() implies (#[trigger] t[j]).session_id@ != id by {
        assert(t[j] == s[j]);
        lemma_monitor_pos_none(s, id, j);
    }
    lemma_monitor_pos(t, id, s.len() as int);
    assert(t.remove(s.len() as int) =~= s);
}

proof fn lemma_monitor_pos_none<C, S>(s: Seq<MonitorEntry<C, S>>, id: Seq<char>, j: int)
    requires
        monitor_pos(s, id) is None,
        0 <= j < s.len(),
    ensures
        s[j].session_id@ != id,
    decreases s.len(),
{
    if s[0].session_id@ != id && j > 0 {
        let t = s.drop_first();
        lemma_monitor_pos_none(t, id, j - 1);
        assert(t[j - 1] == s[j]);
    }
}

/// The standard output of one sample, gathered from its exec channel.
pub struct SampleCollector {
    pub stdout: Vec<u8>,
}

impl SampleCollector {
    pub fn new() -> (c: Self)
        ensures
            c.stdout@.len() == 0,
    {
        SampleCollector { stdout: Vec::new() }
    }

    /// Takes one channel message; `false` when the sample is complete. Data is
    /// kept; standard error is not part of the sample; end of file, the exit
    /// status or `Close` complete it.
    pub fn on_event(&mut self, ev: ChannelEvent) -> (more: bool)
        ensures
            match ev {
                ChannelEvent::Data(d) => more && final(self).stdout@ == old(self).stdout@ + d@,
                ChannelEvent::Eof | ChannelEvent::ExitStatus(_) | ChannelEvent::Close => !more
                    && final(self).stdout@ == old(self).stdout@,
                _ => more && final(self).stdout@ == old(self).stdout@,
            },
    {
        match ev {
            ChannelEvent::Data(mut d) => {
                self.stdout.append(&mut d);
                true
            },
            ChannelEvent::Eof | ChannelEvent::ExitStatus(_) | ChannelEvent::Close => false,
            _ => true,
        }
    }
}

} // verus!
