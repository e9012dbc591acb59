//! Interactive SSH sessions: the commands a session loop takes, the metadata
//! kept per session, what connecting answers, and the terminal size asked for.
use vstd::prelude::*;

use crate::pipe::SessionInfo;

verus! {

/// A command for a session's loop.
#[derive(Debug)]
pub enum SshCommand {
    /// Bytes typed into the terminal.
    Write(Vec<u8>),
    Resize { cols: u32, rows: u32 },
    Disconnect,
    /// Run a one-shot command on a fresh channel (no terminal), for the
    /// resource monitor.
    MonitorExec(String),
}

/// Where a session is connected (`host:port:username`), to match it with
/// the saved assets.
#[derive(Debug, Clone)]
pub struct SessionMeta {
    pub host: String,
    pub port: u16,
    pub username: String,
}

/// What connecting a session answers.
#[derive(Debug, Clone)]
pub struct SshConnectResult {
    pub session_id: String,
    pub connected: bool,
    pub error: Option<String>,
}

/// A failed connection: no session, the error.
pub fn connect_failed(error: String) -> (r: SshConnectResult)
    ensures
        r.session_id@.len() == 0,
        !r.connected,
        r.error == Some(error),
{
    SshConnectResult { session_id: String::new(), connected: false, error: Some(error) }
}

/// A connected session.
pub fn connected(session_id: String) -> (r: SshConnectResult)
    ensures
        r.session_id == session_id,
        r.connected,
        r.error is None,
{
    SshConnectResult { session_id, connected: true, error: None }
}

/// The terminal size asked for: the given one, 80 columns and 24 rows where
/// zero is given.
pub fn pty_size(cols: u32, rows: u32) -> (r: (u32, u32))
    ensures
        r.0 == (if cols > 0 {
            cols
        } else {
            80
        }),
        r.1 == (if rows > 0 {
            rows
        } else {
            24
        }),
{
    let c = if cols > 0 {
        cols
    } else {
        80
    };
    let r = if rows > 0 {
        rows
    } else {
        24
    };
    (c, r)
}

/// The session list the pipe answers, one entry per session, in order.
pub fn session_infos(metas: Vec<(String, SessionMeta)>) -> (r: Vec<SessionInfo>)
    ensures
        r@.len() == metas@.len(),
        forall|i: int|
            0 <= i < r@.len() ==> (#[trigger] r@[i]).session_id == metas@[i].0 && r@[i].host
                == metas@[i].1.host && r@[i].port == metas@[i].1.port && r@[i].username
                == metas@[i].1.username,
{
    let ghost src = metas@;
    let mut out: Vec<SessionInfo> = Vec::new();
    for m in it: metas.into_iter()
        invariant
            it.seq() == src,
            out@.len() == it.index(),
            forall|i: int|
                0 <= i < it.index() ==> (#[trigger] out@[i]).session_id == src[i].0 && out@[i].host
                    == src[i].1.host && out@[i].port == src[i].1.port && out@[i].username
                    == src[i].1.username,
    {
        let ghost k = it.index() as int;
        let (session_id, meta) = m;
        out.push(SessionInfo { session_id, host: meta.host, port: meta.port, username: meta.username });
        assert(out@[k].session_id == src[k].0);
    }
    out
}

} // verus!
