//! SSH tunnels (port forwards): the table of configured tunnels and their
//! running tasks, the checks before a tunnel starts, and the request the MCP
//! `tunnel_create` tool turns its arguments into.
//!
//! Opening listeners and pumping data are the caller's part; `J` is the
//! handle of a running forward's task (aborted when it stops).
use vstd::prelude::*;

use crate::auth::opt_view;
use crate::readonly_tools::{debug_quoted, debug_text};
use crate::text::{chars_of, decimal, has_char, push_decimal, push_str, same_text, string_of};

verus! {

/// A tunnel as configured.
#[derive(Debug, Clone)]
pub struct TunnelConfig {
    pub id: String,
    pub name: String,
    /// `"local"`, `"remote"` or `"dynamic"`.
    pub kind: String,
    pub local_addr: String,
    pub local_port: u16,
    pub remote_addr: String,
    pub remote_port: u16,
    pub session_id: String,
    pub auto_start: bool,
    /// The asset a remote forward connects to on its own connection.
    pub asset_id: Option<String>,
}

/// A tunnel and whether it runs.
#[derive(Debug, Clone)]
pub struct TunnelStatus {
    pub id: String,
    pub config: TunnelConfig,
    pub active: bool,
    pub error: Option<String>,
}

/// How a tunnel forwards.
#[derive(Debug, Clone, Copy, PartialEq, Eq, Structural)]
pub enum TunnelKind {
    Local,
    Remote,
    Dynamic,
}

pub open spec fn kind_of(s: Seq<char>) -> Option<TunnelKind> {
    if s == "local"@ {
        Some(TunnelKind::Local)
    } else if s == "remote"@ {
        Some(TunnelKind::Remote)
    } else if s == "dynamic"@ {
        Some(TunnelKind::Dynamic)
    } else {
        None
    }
}

/// The kind a configuration names; any other is an error.
pub fn tunnel_kind(kind: &str) -> (r: Result<TunnelKind, String>)
    ensures
        match kind_of(kind@) {
            Some(k) => r == Ok::<TunnelKind, String>(k),
            None => r matches Err(e) && e@ == "Unknown tunnel kind: "@ + kind@,
        },
{
    let c = chars_of(kind);
    if crate::text::eq_str(c.as_slice(), "local") {
        Ok(TunnelKind::Local)
    } else if crate::text::eq_str(c.as_slice(), "remote") {
        Ok(TunnelKind::Remote)
    } else if crate::text::eq_str(c.as_slice(), "dynamic") {
        Ok(TunnelKind::Dynamic)
    } else {
        let mut v = chars_of("Unknown tunnel kind: ");
        push_str(&mut v, kind);
        Err(string_of(v.as_slice()))
    }
}

/// One tunnel of the table with its running task, if any.
pub struct TunnelEntry<J> {
    pub status: TunnelStatus,
    pub task: Option<J>,
}

/// The configured tunnels.
pub struct TunnelTable<J> {
    entries: Vec<TunnelEntry<J>>,
}

impl<J> View for TunnelTable<J> {
    type V = Seq<TunnelEntry<J>>;

    closed spec fn view(&self) -> Seq<TunnelEntry<J>> {
        self.entries@
    }
}

/// Position of tunnel `id`.
pub open spec fn tunnel_pos<J>(s: Seq<TunnelEntry<J>>, id: Seq<char>) -> Option<int>
    decreases s.len(),
{
    if s.len() == 0 {
        None
    } else if s[0].status.id@ == id {
        Some(0)
    } else {
        match tunnel_pos(s.drop_first(), id) {
            Some(i) => Some(i + 1),
            None => None,
        }
    }
}

proof fn lemma_tunnel_pos<J>(s: Seq<TunnelEntry<J>>, id: Seq<char>, i: int)
    requires
        0 <= i <= s.len(),
        forall|j: int| 0 <= j < i ==> (#[trigger] s[j]).status.id@ != id,
        i < s.len() ==> s[i].status.id@ == id,
    ensures
        tunnel_pos(s, id) == (if i < s.len() {
            Some(i)
        } else {
            None::<int>
        }),
    decreases s.len(),
{
    if s.len() > 0 && i > 0 {
        let t = s.drop_first();
        assert forall|j: int| 0 <= j < i - 1 implies (#[trigger] t[j]).status.id@ != id by {
            assert(t[j] == s[j + 1]);
        }
        lemma_tunnel_pos(t, id, i - 1);
    }
}

fn find_tunnel<J>(v: &Vec<TunnelEntry<J>>, id: &str) -> (r: Option<usize>)
    ensures
        match r {
            Some(i) => tunnel_pos(v@, id@) == Some(i as int) && i < v@.len(),
            None => tunnel_pos(v@, id@) is None,
        },
{
    let mut i: usize = 0;
    while i < v.len()
        invariant
            i <= v@.len(),
            forall|j: int| 0 <= j < i ==> (#[trigger] v@[j]).status.id@ != id@,
        decreases v.len() - i,
    {
        if same_text(v[i].status.id.as_str(), id) {
            proof {
                lemma_tunnel_pos(v@, id@, i as int);
            }
            return Some(i);
        }
        i += 1;
    }
    proof {
        lemma_tunnel_pos(v@, id@, v@.len() as int);
    }
    None
}

fn copy_text(o: &Option<String>) -> (r: Option<String>)
    ensures
        r == *o,
{
    match o {
        Some(s) => Some(s.clone()),
        None => None,
    }
}

/// A copy of a configuration.
pub fn copy_config(c: &TunnelConfig) -> (r: TunnelConfig)
    ensures
        r == *c,
{
    TunnelConfig {
        id: c.id.clone(),
        name: c.name.clone(),
        kind: c.kind.clone(),
        local_addr: c.local_addr.clone(),
        local_port: c.local_port,
        remote_addr: c.remote_addr.clone(),
        remote_port: c.remote_port,
        session_id: c.session_id.clone(),
        auto_start: c.auto_start,
        asset_id: copy_text(&c.asset_id),
    }
}

/// A copy of a status.
pub fn copy_status(s: &TunnelStatus) -> (r: TunnelStatus)
    ensures
        r == *s,
{
    TunnelStatus {
        id: s.id.clone(),
        config: copy_config(&s.config),
        active: s.active,
        error: copy_text(&s.error),
    }
}

pub open spec fn tunnel_missing_text(id: Seq<char>) -> Seq<char> {
    "Tunnel "@ + id + " not found"@
}

pub open spec fn session_missing_text(id: Seq<char>) -> Seq<char> {
    "SSH session "@ + id + " not found"@
}

/// Why a tunnel cannot start, in the order checked: the session is unknown,
/// the tunnel is unknown, or it runs already.
pub open spec fn start_error<J>(s: Seq<TunnelEntry<J>>, session_found: bool, session_id: Seq<char>, tunnel_id: Seq<char>) -> Option<Seq<char>> {
    if !session_found {
        Some(session_missing_text(session_id))
    } else {
        match tunnel_pos(s, tunnel_id) {
            None => Some(tunnel_missing_text(tunnel_id)),
            Some(i) => if s[i].status.active {
                Some("Tunnel is already active"@)
            } else {
                None
            },
        }
    }
}

/// Keeps the tunnels of sessions other than `sid`.
pub open spec fn other_session<J>(sid: Seq<char>) -> spec_fn(TunnelEntry<J>) -> bool {
    |e: TunnelEntry<J>| e.status.config.session_id@ != sid
}

/// The running tasks of the tunnels of session `sid`, in table order.
pub open spec fn session_tasks<J>(s: Seq<TunnelEntry<J>>, sid: Seq<char>) -> Seq<J>
    decreases s.len(),
{
    if s.len() == 0 {
        Seq::empty()
    } else {
        let p = session_tasks(s.drop_last(), sid);
        let e = s.last();
        if e.status.config.session_id@ == sid && e.task is Some {
            p.push(e.task->0)
        } else {
            p
        }
    }
}

impl<J> TunnelTable<J> {
    pub fn new() -> (r: Self)
        ensures
            r@.len() == 0,
    {
        TunnelTable { entries: Vec::new() }
    }

    /// Registers a tunnel (inactive) and returns its status; a tunnel with the
    /// same id is replaced, its running task (if any) kept.
    pub fn create(&mut self, config: TunnelConfig) -> (r: TunnelStatus)
        ensures
            r.id == config.id,
            r.config == config,
            !r.active,
            r.error is None,
            match tunnel_pos(old(self)@, config.id@) {
                Some(i) => final(self)@ == old(self)@.update(i, TunnelEntry { status: r, task: old(self)@[i].task }),
                None => final(self)@ == old(self)@.push(TunnelEntry { status: r, task: None }),
            },
    {
        let status = TunnelStatus { id: config.id.clone(), config, active: false, error: None };
        let kept = copy_status(&status);
        match find_tunnel(&self.entries, status.id.as_str()) {
            Some(i) => {
                let old_entry = self.entries.remove(i);
                self.entries.insert(i, TunnelEntry { status, task: old_entry.task });
                proof {
                    assert(self.entries@ =~= old(self)@.update(
                        i as int,
                        TunnelEntry { status: kept, task: old(self)@[i as int].task },
                    ));
                }
            },
            None => {
                self.entries.push(TunnelEntry { status, task: None });
            },
        }
        kept
    }

    /// The checks before tunnel `tunnel_id` starts on session `session_id`
    /// (whether the session is known is the caller's lookup); on success the
    /// tunnel's configuration.
    pub fn start_check(&self, session_found: bool, session_id: &str, tunnel_id: &str) -> (r: Result<
        TunnelConfig,
        String,
    >)
        ensures
            match start_error(self@, session_found, session_id@, tunnel_id@) {
                Some(e) => r matches Err(m) && m@ == e,
                None => r matches Ok(c) && c == self@[tunnel_pos(self@, tunnel_id@)->0].status.config,
            },
    {
        if !session_found {
            let mut v = chars_of("SSH session ");
            push_str(&mut v, session_id);
            push_str(&mut v, " not found");
            return Err(string_of(v.as_slice()));
        }
        match find_tunnel(&self.entries, tunnel_id) {
            None => {
                let mut v = chars_of("Tunnel ");
                push_str(&mut v, tunnel_id);
                push_str(&mut v, " not found");
                Err(string_of(v.as_slice()))
            },
            Some(i) => {
                if self.entries[i].status.active {
                    Err(string_of(chars_of("Tunnel is already active").as_slice()))
                } else {
                    Ok(copy_config(&self.entries[i].status.config))
                }
            },
        }
    }

    /// Records that tunnel `tunnel_id` started with `task`: it is active with
    /// no error. When the tunnel was deleted meanwhile, the task is handed
    /// back to be aborted.
    pub fn mark_started(&mut self, tunnel_id: &str, task: J) -> (r: Option<J>)
        ensures
            match tunnel_pos(old(self)@, tunnel_id@) {
                Some(i) => r is None && final(self)@ == old(self)@.update(
                    i,
                    TunnelEntry {
                        status: TunnelStatus { active: true, error: None, ..old(self)@[i].status },
                        task: Some(task),
                    },
                ),
                None => r == Some(task) && final(self)@ == old(self)@,
            },
    {
        match find_tunnel(&self.entries, tunnel_id) {
            Some(i) => {
                let mut e = self.entries.remove(i);
                e.status.active = true;
                e.status.error = None;
                e.task = Some(task);
                self.entries.insert(i, e);
                proof {
                    assert(self.entries@ =~= old(self)@.update(
                        i as int,
                        TunnelEntry {
                            status: TunnelStatus {
                                active: true,
                                error: None,
                                ..old(self)@[i as int].status
                            },
                            task: Some(task),
                        },
                    ));
                }
                None
            },
            None => Some(task),
        }
    }

    /// Stops tunnel `tunnel_id`: it becomes inactive and its task is handed
    /// back to be aborted.
    pub fn stop(&mut self, tunnel_id: &str) -> (r: Option<J>)
        ensures
            match tunnel_pos(old(self)@, tunnel_id@) {
                Some(i) => r == old(self)@[i].task && final(self)@ == old(self)@.update(
                    i,
                    TunnelEntry {
                        status: TunnelStatus { active: false, ..old(self)@[i].status },
                        task: None,
                    },
                ),
                None => r is None && final(self)@ == old(self)@,
            },
    {
        match find_tunnel(&self.entries, tunnel_id) {
            Some(i) => {
                let mut e = self.entries.remove(i);
                e.status.active = false;
                let task = e.task;
                e.task = None;
                self.entries.insert(i, e);
                proof {
                    assert(self.entries@ =~= old(self)@.update(
                        i as int,
                        TunnelEntry {
                            status: TunnelStatus { active: false, ..old(self)@[i as int].status },
                            task: None,
                        },
                    ));
                }
                task
            },
            None => None,
        }
    }

    /// Deletes tunnel `tunnel_id`, handing back its task.
    pub fn delete(&mut self, tunnel_id: &str) -> (r: Option<J>)
        ensures
            match tunnel_pos(old(self)@, tunnel_id@) {
                Some(i) => r == old(self)@[i].task && final(self)@ == old(self)@.remove(i),
                None => r is None && final(self)@ == old(self)@,
            },
    {
        match find_tunnel(&self.entries, tunnel_id) {
            Some(i) => {
                let e = self.entries.remove(i);
                e.task
            },
            None => None,
        }
    }

    /// The statuses of all tunnels.
    pub fn list(&self) -> (r: Vec<TunnelStatus>)
        ensures
            r@.len() == self@.len(),
            forall|i: int| 0 <= i < r@.len() ==> #[trigger] r@[i] == self@[i].status,
    {
        let mut out: Vec<TunnelStatus> = Vec::new();
        let mut k: usize = 0;
        while k < self.entries.len()
            invariant
                k <= self@.len(),
                out@.len() == k,
                forall|i: int| 0 <= i < k ==> #[trigger] out@[i] == self@[i].status,
            decreases self.entries.len() - k,
        {
            out.push(copy_status(&self.entries[k].status));
            k += 1;
        }
        out
    }

    /// Removes the tunnels of a session that is going away and hands back
    /// their tasks to be aborted; the other tunnels stay, in order.
    pub fn drop_session(&mut self, session_id: &str) -> (r: Vec<J>)
        ensures
            final(self)@ == old(self)@.filter(other_session::<J>(session_id@)),
            r@ == session_tasks(old(self)@, session_id@),
    {
        let mut all: Vec<TunnelEntry<J>> = Vec::new();
        std::mem::swap(&mut all, &mut self.entries);
        let ghost orig = all@;
        let ghost keep = other_session::<J>(session_id@);
        let mut kept: Vec<TunnelEntry<J>> = Vec::new();
        let mut tasks: Vec<J> = Vec::new();
        for e in it: all.into_iter()
            invariant
                it.seq() == orig,
                keep == other_session::<J>(session_id@),
                kept@ == orig.take(it.index() as int).filter(keep),
                tasks@ == session_tasks(orig.take(it.index() as int), session_id@),
        {
            let ghost i = it.index() as int;
            proof {
                assert(orig.take(i + 1).drop_last() =~= orig.take(i));
                assert(orig.take(i + 1).last() == e);
            }
            if same_text(e.status.config.session_id.as_str(), session_id) {
                proof {
                    assert(!keep(e));
                    reveal(Seq::filter);
                    assert(orig.take(i + 1).filter(keep) == orig.take(i).filter(keep));
                }
                if let Some(t) = e.task {
                    tasks.push(t);
                }
            } else {
                proof {
                    assert(keep(e));
                    reveal(Seq::filter);
                    assert(orig.take(i + 1).filter(keep) == orig.take(i).filter(keep).push(e));
                }
                kept.push(e);
            }
        }
        proof {
            assert(orig.take(orig.len() as int) =~= orig);
        }
        self.entries = kept;
        tasks
    }
}

// ─── the MCP tunnel_create tool ───

/// The arguments of `tunnel_create` (a missing or mistyped value is `None`).
pub struct TunnelArgs {
    pub asset_id: Option<String>,
    pub kind: Option<String>,
    pub local_port: Option<u64>,
    pub remote_addr: Option<String>,
    pub remote_port: Option<u64>,
    pub bind_addr: Option<String>,
}

/// A validated request.
#[derive(Debug)]
pub struct TunnelRequest {
    pub asset_id: String,
    pub kind: String,
    pub local_port: u16,
    pub remote_addr: String,
    pub remote_port: u16,
    pub bind_addr: String,
}

/// What the tool does with its arguments before any lookup.
#[derive(Debug)]
pub enum TunnelCheck {
    /// A missing argument: the call fails.
    Fail(String),
    /// A refused request: the tool answers with this error text.
    Refuse(String),
    Proceed(TunnelRequest),
}

pub open spec fn non_empty(o: Option<String>) -> Option<Seq<char>> {
    match o {
        Some(s) => if s@.len() > 0 {
            Some(s@)
        } else {
            None
        },
        None => None,
    }
}

pub open spec fn bad_remote_addr(a: Seq<char>) -> bool {
    a.contains('\'') || a.contains('\\') || a.contains(' ')
}

pub open spec fn kind_text(args: TunnelArgs) -> Seq<char> {
    match args.kind {
        Some(k) => k@,
        None => "local"@,
    }
}

/// The check owed for `args`, in the tool's order.
pub open spec fn tunnel_check_ok(args: TunnelArgs, r: TunnelCheck) -> bool {
    if non_empty(args.asset_id) is None {
        r matches TunnelCheck::Fail(m) && m@ == "缺少 asset_id 参数"@
    } else if args.local_port is None {
        r matches TunnelCheck::Fail(m) && m@ == "缺少 localPort 参数"@
    } else if non_empty(args.remote_addr) is None {
        r matches TunnelCheck::Fail(m) && m@ == "缺少 remoteAddr 参数（remote/local 转发的目标地址）"@
    } else if args.remote_port is None {
        r matches TunnelCheck::Fail(m) && m@ == "缺少 remotePort 参数"@
    } else if kind_of(kind_text(args)) is None {
        r matches TunnelCheck::Refuse(m) && m@ == "kind 仅支持 local / remote / dynamic（收到 "@ + debug_text(
            kind_text(args),
        ) + "）"@
    } else if bad_remote_addr(non_empty(args.remote_addr)->0) {
        r matches TunnelCheck::Refuse(m) && m@ == "remoteAddr 参数含非法字符"@
    } else {
        r matches TunnelCheck::Proceed(q) && q.asset_id@ == non_empty(args.asset_id)->0 && q.kind@
            == kind_text(args) && q.local_port == (args.local_port->0 as u16) && q.remote_addr@
            == non_empty(args.remote_addr)->0 && q.remote_port == (args.remote_port->0 as u16)
            && q.bind_addr@ == (match args.bind_addr {
            Some(b) => b@,
            None => "127.0.0.1"@,
        })
    }
}

fn take_non_empty(o: Option<String>) -> (r: Option<String>)
    ensures
        opt_view(r) == non_empty(o),
{
    match o {
        Some(s) => if s.as_str().is_empty() {
            None
        } else {
            Some(s)
        },
        None => None,
    }
}

/// Checks the tool's arguments (the kind defaults to `local`, the bind address
/// to `127.0.0.1`; the ports are taken as 16-bit values, as the tool casts them).
pub fn tunnel_check(args: TunnelArgs) -> (r: TunnelCheck)
    ensures
        tunnel_check_ok(args, r),
{
    let ghost a = args;
    let asset_id = match take_non_empty(args.asset_id) {
        Some(a) => a,
        None => return TunnelCheck::Fail(string_of(chars_of("缺少 asset_id 参数").as_slice())),
    };
    let local_port = match args.local_port {
        Some(p) => p,
        None => return TunnelCheck::Fail(string_of(chars_of("缺少 localPort 参数").as_slice())),
    };
    let remote_addr = match take_non_empty(args.remote_addr) {
        Some(r) => r,
        None => return TunnelCheck::Fail(string_of(chars_of(
            "缺少 remoteAddr 参数（remote/local 转发的目标地址）",
        ).as_slice())),
    };
    let remote_port = match args.remote_port {
        Some(p) => p,
        None => return TunnelCheck::Fail(string_of(chars_of("缺少 remotePort 参数").as_slice())),
    };
    let kind = match args.kind {
        Some(k) => k,
        None => string_of(chars_of("local").as_slice()),
    };
    proof {
        reveal_strlit("local");
    }
    if tunnel_kind(kind.as_str()).is_err() {
        let mut v = chars_of("kind 仅支持 local / remote / dynamic（收到 ");
        let quoted = debug_quoted(kind.as_str());
        push_str(&mut v, quoted.as_str());
        push_str(&mut v, "）");
        return TunnelCheck::Refuse(string_of(v.as_slice()));
    }
    let rc = chars_of(remote_addr.as_str());
    if has_char(rc.as_slice(), '\'') || has_char(rc.as_slice(), '\\') || has_char(rc.as_slice(), ' ') {
        return TunnelCheck::Refuse(string_of(chars_of("remoteAddr 参数含非法字符").as_slice()));
    }
    let bind_addr = match args.bind_addr {
        Some(b) => b,
        None => string_of(chars_of("127.0.0.1").as_slice()),
    };
    TunnelCheck::Proceed(
        TunnelRequest {
            asset_id,
            kind,
            local_port: local_port as u16,
            remote_addr,
            remote_port: remote_port as u16,
            bind_addr,
        },
    )
}

pub open spec fn only_remote_text() -> Seq<char> {
    "MVP 仅支持 remote 转发（走资产专用连接）；local/dynamic 需要活跃 GUI 会话，请在 GUI 隧道面板建立"@
}

/// Only remote forwards are created from the tool (they use the asset's own
/// connection; local and dynamic ones need a live GUI session).
pub fn require_remote(req: &TunnelRequest) -> (r: Result<(), String>)
    ensures
        req.kind@ == "remote"@ ==> r is Ok,
        req.kind@ != "remote"@ ==> (r matches Err(e) && e@ == only_remote_text()),
{
    if same_text(req.kind.as_str(), "remote") {
        Ok(())
    } else {
        Err(string_of(chars_of(
            "MVP 仅支持 remote 转发（走资产专用连接）；local/dynamic 需要活跃 GUI 会话，请在 GUI 隧道面板建立",
        ).as_slice()))
    }
}

/// The decimal notation of a signed number.
pub open spec fn signed_decimal(n: i64) -> Seq<char> {
    if n < 0 {
        "-"@ + decimal((-n) as nat)
    } else {
        decimal(n as nat)
    }
}

fn push_signed(v: &mut Vec<char>, n: i64)
    ensures
        final(v)@ == old(v)@ + signed_decimal(n),
{
    if n < 0 {
        push_str(v, "-");
        let m: u128 = (0i128 - n as i128) as u128;
        push_decimal(v, m);
        proof {
            reveal_strlit("-");
        }
        assert(v@ =~= old(v)@ + signed_decimal(n));
    } else {
        push_decimal(v, n as u128);
    }
}

/// The configuration of a tunnel created by the tool at `now_millis`: id
/// `mcp-<kind>-<local port>-<millis>`, name `MCP <kind> <local port>`, bound to
/// the asset rather than a session, not started automatically.
pub fn mcp_tunnel_config(req: TunnelRequest, now_millis: i64) -> (r: TunnelConfig)
    ensures
        r.id@ == "mcp-"@ + req.kind@ + "-"@ + decimal(req.local_port as nat) + "-"@ + signed_decimal(now_millis),
        r.name@ == "MCP "@ + req.kind@ + " "@ + decimal(req.local_port as nat),
        r.kind == req.kind,
        r.local_addr == req.bind_addr,
        r.local_port == req.local_port,
        r.remote_addr == req.remote_addr,
        r.remote_port == req.remote_port,
        r.session_id@.len() == 0,
        !r.auto_start,
        r.asset_id == Some(req.asset_id),
{
    let mut id = chars_of("mcp-");
    push_str(&mut id, req.kind.as_str());
    push_str(&mut id, "-");
    push_decimal(&mut id, req.local_port as u128);
    push_str(&mut id, "-");
    push_signed(&mut id, now_millis);
    let mut name = chars_of("MCP ");
    push_str(&mut name, req.kind.as_str());
    push_str(&mut name, " ");
    push_decimal(&mut name, req.local_port as u128);
    TunnelConfig {
        id: string_of(id.as_slice()),
        name: string_of(name.as_slice()),
        kind: req.kind,
        local_addr: req.bind_addr,
        local_port: req.local_port,
        remote_addr: req.remote_addr,
        remote_port: req.remote_port,
        session_id: String::new(),
        auto_start: false,
        asset_id: Some(req.asset_id),
    }
}

/// The tool's configuration stamped with the current time.
pub fn new_mcp_tunnel_config(req: TunnelRequest) -> (r: TunnelConfig)
    ensures
        exists|now: i64| r.id@ == "mcp-"@ + req.kind@ + "-"@ + decimal(req.local_port as nat) + "-"@
            + signed_decimal(now),
        r.name@ == "MCP "@ + req.kind@ + " "@ + decimal(req.local_port as nat),
        r.kind == req.kind,
        r.local_addr == req.bind_addr,
        r.local_port == req.local_port,
        r.remote_addr == req.remote_addr,
        r.remote_port == req.remote_port,
        r.session_id@.len() == 0,
        !r.auto_start,
        r.asset_id == Some(req.asset_id),
{
    let now = crate::execution_log::utc_now_millis();
    mcp_tunnel_config(req, now)
}

} // verus!
