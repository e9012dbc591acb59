//! The line protocol between the MCP side and the GUI's SSH sessions (one
//! JSON object per line, flat fields): requests, responses, the routing of a
//! request on the GUI side, the two-step resolve-then-exec on the MCP side,
//! and the lookup of a GUI session by host.
use vstd::prelude::*;

use crate::text::{chars_of, decimal, push_decimal, push_str, same_text, string_of};

verus! {

/// A request: `exec`, `resolve_session` or `list_sessions`.
pub struct PipeRequest {
    pub id: String,
    pub method: String,
    pub session_id: Option<String>,
    pub command: Option<String>,
    pub host: Option<String>,
    pub port: Option<u16>,
    pub username: Option<String>,
}

/// A session as listed to the MCP side.
pub struct SessionInfo {
    pub session_id: String,
    pub host: String,
    pub port: u16,
    pub username: String,
}

/// A response: on success one of `output`, `session_id`, `sessions`; on
/// failure `error`.
pub struct PipeResponse {
    pub id: String,
    pub ok: bool,
    pub output: Option<String>,
    pub session_id: Option<String>,
    pub sessions: Option<Vec<SessionInfo>>,
    pub error: Option<String>,
}

impl PipeResponse {
    pub fn exec_ok(id: String, output: String) -> (r: Self)
        ensures
            r.id == id,
            r.ok,
            r.output == Some(output),
            r.session_id is None,
            r.sessions is None,
            r.error is None,
    {
        PipeResponse { id, ok: true, output: Some(output), session_id: None, sessions: None, error: None }
    }

    pub fn session_ok(id: String, session_id: String) -> (r: Self)
        ensures
            r.id == id,
            r.ok,
            r.output is None,
            r.session_id == Some(session_id),
            r.sessions is None,
            r.error is None,
    {
        PipeResponse { id, ok: true, output: None, session_id: Some(session_id), sessions: None, error: None }
    }

    pub fn list_ok(id: String, sessions: Vec<SessionInfo>) -> (r: Self)
        ensures
            r.id == id,
            r.ok,
            r.output is None,
            r.session_id is None,
            r.sessions == Some(sessions),
            r.error is None,
    {
        PipeResponse { id, ok: true, output: None, session_id: None, sessions: Some(sessions), error: None }
    }

    pub fn error(id: String, message: String) -> (r: Self)
        ensures
            r.id == id,
            !r.ok,
            r.output is None,
            r.session_id is None,
            r.sessions is None,
            r.error == Some(message),
    {
        PipeResponse { id, ok: false, output: None, session_id: None, sessions: None, error: Some(message) }
    }
}

// ─── GUI side ───

/// What a request asks of the session manager.
pub enum PipeRoute {
    /// Run `command` on `session_id` (missing values are empty).
    Exec { session_id: String, command: String },
    /// Find a session for `host:port` and `username` (missing values are
    /// empty, port 0).
    Resolve { host: String, port: u16, username: String },
    /// List the sessions.
    List,
    /// Answer an error response with this message.
    Unknown(String),
}

pub open spec fn opt_text(o: Option<String>) -> Seq<char> {
    match o {
        Some(s) => s@,
        None => Seq::empty(),
    }
}

fn opt_text_exec(o: &Option<String>) -> (r: String)
    ensures
        r@ == opt_text(*o),
{
    match o {
        Some(s) => s.clone(),
        None => String::new(),
    }
}

pub open spec fn unknown_method_text(m: Seq<char>) -> Seq<char> {
    "unknown method: "@ + m
}

/// Routes a request by its method.
pub fn route_request(req: &PipeRequest) -> (r: PipeRoute)
    ensures
        req.method@ == "exec"@ ==> (r matches PipeRoute::Exec { session_id, command }
            && session_id@ == opt_text(req.session_id) && command@ == opt_text(req.command)),
        req.method@ == "resolve_session"@ ==> (r matches PipeRoute::Resolve { host, port, username }
            && host@ == opt_text(req.host) && username@ == opt_text(req.username) && port == (match req.port {
            Some(p) => p,
            None => 0u16,
        })),
        req.method@ == "list_sessions"@ ==> r is List,
        req.method@ != "exec"@ && req.method@ != "resolve_session"@ && req.method@
            != "list_sessions"@ ==> (r matches PipeRoute::Unknown(m) && m@ == unknown_method_text(
            req.method@,
        )),
{
    proof {
        reveal_strlit("exec");
        reveal_strlit("resolve_session");
        reveal_strlit("list_sessions");
        assert("exec"@.len() != "resolve_session"@.len());
        assert("exec"@.len() != "list_sessions"@.len());
        assert("list_sessions"@.len() != "resolve_session"@.len());
    }
    let m = req.method.as_str();
    if same_text(m, "exec") {
        PipeRoute::Exec { session_id: opt_text_exec(&req.session_id), command: opt_text_exec(&req.command) }
    } else if same_text(m, "resolve_session") {
        PipeRoute::Resolve {
            host: opt_text_exec(&req.host),
            port: match req.port {
                Some(p) => p,
                None => 0,
            },
            username: opt_text_exec(&req.username),
        }
    } else if same_text(m, "list_sessions") {
        PipeRoute::List
    } else {
        let mut v = chars_of("unknown method: ");
        push_str(&mut v, m);
        PipeRoute::Unknown(string_of(v.as_slice()))
    }
}

pub open spec fn bad_json_text(e: Seq<char>) -> Seq<char> {
    "bad request json: "@ + e
}

/// The answer to a line that is not a request (no id to echo).
pub fn bad_request_response(parse_error: &str) -> (r: PipeResponse)
    ensures
        r.id@.len() == 0,
        !r.ok,
        r.error matches Some(e) && e@ == bad_json_text(parse_error@),
{
    let mut v = chars_of("bad request json: ");
    push_str(&mut v, parse_error);
    PipeResponse::error(String::new(), string_of(v.as_slice()))
}

/// The GUI's sessions with their connection data, in the order they opened.
pub struct SessionTable {
    pub sessions: Vec<SessionInfo>,
}

pub open spec fn full_match(s: SessionInfo, host: Seq<char>, port: u16, username: Seq<char>) -> bool {
    s.host@ == host && s.port == port && s.username@ == username
}

pub open spec fn host_match(s: SessionInfo, host: Seq<char>, port: u16) -> bool {
    s.host@ == host && s.port == port
}

/// `i` is the first full match.
pub open spec fn first_full(s: Seq<SessionInfo>, host: Seq<char>, port: u16, username: Seq<char>, i: int) -> bool {
    &&& 0 <= i < s.len()
    &&& full_match(s[i], host, port, username)
    &&& forall|j: int| 0 <= j < i ==> !full_match(#[trigger] s[j], host, port, username)
}

/// `i` is the first `host:port` match.
pub open spec fn first_host(s: Seq<SessionInfo>, host: Seq<char>, port: u16, i: int) -> bool {
    &&& 0 <= i < s.len()
    &&& host_match(s[i], host, port)
    &&& forall|j: int| 0 <= j < i ==> !host_match(#[trigger] s[j], host, port)
}

/// `r` is the id of the first session satisfying a full match when there is
/// one, else of the first matching `host:port`, else none.
pub open spec fn found_session(
    s: Seq<SessionInfo>,
    host: Seq<char>,
    port: u16,
    username: Seq<char>,
    r: Option<String>,
) -> bool {
    if exists|i: int| 0 <= i < s.len() && full_match(#[trigger] s[i], host, port, username) {
        exists|i: int| #[trigger] first_full(s, host, port, username, i) && r == Some(s[i].session_id)
    } else if exists|i: int| 0 <= i < s.len() && host_match(#[trigger] s[i], host, port) {
        exists|i: int| #[trigger] first_host(s, host, port, i) && r == Some(s[i].session_id)
    } else {
        r is None
    }
}

impl SessionTable {
    /// The GUI session for `host:port` and `username`; a session of another
    /// account on the same `host:port` is the fallback.
    pub fn find_session_by_host(&self, host: &str, port: u16, username: &str) -> (r: Option<String>)
        ensures
            found_session(self.sessions@, host@, port, username@, r),
    {
        let mut i: usize = 0;
        while i < self.sessions.len()
            invariant
                i <= self.sessions@.len(),
                forall|j: int| 0 <= j < i ==> !full_match(#[trigger] self.sessions@[j], host@, port, username@),
            decreases self.sessions.len() - i,
        {
            if same_text(self.sessions[i].host.as_str(), host) && self.sessions[i].port == port && same_text(
                self.sessions[i].username.as_str(),
                username,
            ) {
                let r = Some(self.sessions[i].session_id.clone());
                assert(full_match(self.sessions@[i as int], host@, port, username@));
                assert(first_full(self.sessions@, host@, port, username@, i as int));
                assert(r == Some(self.sessions@[i as int].session_id));
                return r;
            }
            i += 1;
        }
        let mut k: usize = 0;
        while k < self.sessions.len()
            invariant
                k <= self.sessions@.len(),
                forall|j: int| 0 <= j < self.sessions@.len() ==> !full_match(#[trigger] self.sessions@[j], host@, port, username@),
                forall|j: int| 0 <= j < k ==> !host_match(#[trigger] self.sessions@[j], host@, port),
            decreases self.sessions.len() - k,
        {
            if same_text(self.sessions[k].host.as_str(), host) && self.sessions[k].port == port {
                let r = Some(self.sessions[k].session_id.clone());
                assert(host_match(self.sessions@[k as int], host@, port));
                assert(first_host(self.sessions@, host@, port, k as int));
                return r;
            }
            k += 1;
        }
        None
    }
}

// ─── MCP side ───

/// The request resolving a session (id `r1`).
pub fn resolve_request(host: &str, port: u16, username: &str) -> (r: PipeRequest)
    ensures
        r.id@ == "r1"@,
        r.method@ == "resolve_session"@,
        r.session_id is None,
        r.command is None,
        r.host matches Some(h) && h@ == host@,
        r.port == Some(port),
        r.username matches Some(u) && u@ == username@,
{
    PipeRequest {
        id: "r1".to_owned(),
        method: "resolve_session".to_owned(),
        session_id: None,
        command: None,
        host: Some(host.to_owned()),
        port: Some(port),
        username: Some(username.to_owned()),
    }
}

/// The request running a command (id `r2`).
pub fn exec_request(session_id: String, command: &str) -> (r: PipeRequest)
    ensures
        r.id@ == "r2"@,
        r.method@ == "exec"@,
        r.session_id == Some(session_id),
        r.command matches Some(c) && c@ == command@,
        r.host is None,
        r.port is None,
        r.username is None,
{
    PipeRequest {
        id: "r2".to_owned(),
        method: "exec".to_owned(),
        session_id: Some(session_id),
        command: Some(command.to_owned()),
        host: None,
        port: None,
        username: None,
    }
}

pub open spec fn id_mismatch_text(expected: Seq<char>, got: Seq<char>) -> Seq<char> {
    "pipe id mismatch: expected "@ + expected + ", got "@ + got
}

/// A response must answer the request it follows (same id).
pub fn check_reply(req_id: &str, resp: PipeResponse) -> (r: Result<PipeResponse, String>)
    ensures
        resp.id@ == req_id@ ==> r == Ok::<PipeResponse, String>(resp),
        resp.id@ != req_id@ ==> (r matches Err(e) && e@ == id_mismatch_text(req_id@, resp.id@)),
{
    if same_text(resp.id.as_str(), req_id) {
        Ok(resp)
    } else {
        let mut v = chars_of("pipe id mismatch: expected ");
        push_str(&mut v, req_id);
        push_str(&mut v, ", got ");
        push_str(&mut v, resp.id.as_str());
        Err(string_of(v.as_slice()))
    }
}

/// After the resolve step: a session id, `None` (no GUI session: fall back
/// to a headless connection) or a malformed answer.
pub fn after_resolve(resp: PipeResponse) -> (r: Result<Option<String>, String>)
    ensures
        resp.ok && resp.session_id is Some ==> r == Ok::<Option<String>, String>(resp.session_id),
        !resp.ok ==> r == Ok::<Option<String>, String>(None),
        resp.ok && resp.session_id is None ==> (r matches Err(e) && e@
            == "unexpected resolve response shape"@),
{
    if resp.ok {
        match resp.session_id {
            Some(sid) => Ok(Some(sid)),
            None => Err("unexpected resolve response shape".to_owned()),
        }
    } else {
        Ok(None)
    }
}

pub open spec fn pipe_exec_failed_text(e: Option<String>) -> Seq<char> {
    "pipe exec failed: "@ + opt_text(e)
}

/// After the exec step: the output, or why it failed.
pub fn after_exec(resp: PipeResponse) -> (r: Result<String, String>)
    ensures
        resp.ok && resp.output is Some ==> (r matches Ok(o) && o == resp.output->0),
        !resp.ok ==> (r matches Err(e) && e@ == pipe_exec_failed_text(resp.error)),
        resp.ok && resp.output is None ==> (r matches Err(e) && e@
            == "unexpected exec response shape"@),
{
    if resp.ok {
        match resp.output {
            Some(o) => Ok(o),
            None => Err("unexpected exec response shape".to_owned()),
        }
    } else {
        let mut v = chars_of("pipe exec failed: ");
        let e = opt_text_exec(&resp.error);
        push_str(&mut v, e.as_str());
        Err(string_of(v.as_slice()))
    }
}

} // verus!
