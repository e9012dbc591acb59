//! The readiness probe of the embedded MCP HTTP server: the first JSON-RPC
//! frame of the reply (an SSE stream, or bare JSON), the checks on the
//! `initialize` answer, and the result shown to the GUI.
use vstd::prelude::*;

use crate::text::{
    char_views, chars_of, has_prefix, push_str, slice_chars, split_chars, split_on,
    starts_with_str, string_of, trim, trim_chars,
};

verus! {

#[derive(Debug)]
pub struct ServerInfoDto {
    pub name: String,
    pub version: String,
}

/// The probe's verdict.
#[derive(Debug)]
pub struct McpProbeResult {
    pub ok: bool,
    /// `endpoint_not_found` / `http_error` / `timeout` / `bad_protocol`.
    pub reason: Option<String>,
    pub detail: Option<String>,
    /// The probed endpoint URL.
    pub exe_path: String,
    pub server_info: Option<ServerInfoDto>,
    /// When the probe ran (RFC 3339).
    pub probed_at: String,
}

/// A failed probe.
pub fn fail(exe_path: &str, detail: String, probed_at: String, reason: &str) -> (r: McpProbeResult)
    ensures
        !r.ok,
        r.reason matches Some(x) && x@ == reason@,
        r.detail == Some(detail),
        r.exe_path@ == exe_path@,
        r.server_info is None,
        r.probed_at == probed_at,
{
    McpProbeResult {
        ok: false,
        reason: Some(reason.to_owned()),
        detail: Some(detail),
        exe_path: exe_path.to_owned(),
        server_info: None,
        probed_at,
    }
}

pub open spec fn no_endpoint_text() -> Seq<char> {
    "MCP HTTP server 尚未启动或未写入 endpoint 配置"@
}

/// The probe result when no endpoint was recorded yet.
pub fn fail_no_endpoint(probed_at: &str) -> (r: McpProbeResult)
    ensures
        !r.ok,
        r.reason matches Some(x) && x@ == "endpoint_not_found"@,
        r.detail matches Some(d) && d@ == no_endpoint_text(),
        r.exe_path@.len() == 0,
        r.server_info is None,
        r.probed_at@ == probed_at@,
{
    proof {
        reveal_strlit("");
    }
    fail(
        "",
        "MCP HTTP server 尚未启动或未写入 endpoint 配置".to_owned(),
        probed_at.to_owned(),
        "endpoint_not_found",
    )
}

// ─── first JSON frame ───

/// The JSON of an SSE `data: {...}` line (trimmed), if the line is one.
pub open spec fn data_payload(line: Seq<char>) -> Option<Seq<char>> {
    let t = trim(line);
    if has_prefix(t, "data: "@) {
        let j = trim(t.skip(6));
        if j.len() > 0 && j[0] == '{' {
            Some(j)
        } else {
            None
        }
    } else {
        None
    }
}

/// The payload of the first `data:` line holding a JSON object.
pub open spec fn first_payload(lines: Seq<Seq<char>>) -> Option<Seq<char>>
    decreases lines.len(),
{
    if lines.len() == 0 {
        None
    } else {
        match data_payload(lines[0]) {
            Some(j) => Some(j),
            None => first_payload(lines.drop_first()),
        }
    }
}

/// The first JSON frame of a reply: the first `data:` line holding an object,
/// else the whole (trimmed) body when it is an object itself.
pub open spec fn sse_json(body: Seq<char>) -> Option<Seq<char>> {
    match first_payload(split_on(body, '\n')) {
        Some(j) => Some(j),
        None => {
            let t = trim(body);
            if t.len() > 0 && t[0] == '{' {
                Some(t)
            } else {
                None
            }
        },
    }
}

fn data_payload_exec(line: &[char]) -> (r: Option<Vec<char>>)
    ensures
        match data_payload(line@) {
            Some(j) => r matches Some(v) && v@ == j,
            None => r is None,
        },
{
    proof {
        reveal_strlit("data: ");
    }
    let t = trim_chars(line);
    if !starts_with_str(t.as_slice(), "data: ") {
        return None;
    }
    let rest = slice_chars(t.as_slice(), 6, t.len());
    assert(rest@ =~= t@.skip(6));
    let j = trim_chars(rest.as_slice());
    if j.len() > 0 && j[0] == '{' {
        Some(j)
    } else {
        None
    }
}

/// The first JSON frame of a reply (see `sse_json`).
pub fn extract_first_json_from_sse(body: &str) -> (r: Option<String>)
    ensures
        match sse_json(body@) {
            Some(j) => r matches Some(s) && s@ == j,
            None => r is None,
        },
{
    let chars = chars_of(body);
    let lines = split_chars(chars.as_slice(), '\n');
    let ghost ls = char_views(lines@);
    let mut k: usize = 0;
    assert(ls.skip(0) =~= ls);
    while k < lines.len()
        invariant
            k <= lines@.len(),
            ls == char_views(lines@),
            ls == split_on(body@, '\n'),
            first_payload(ls) == first_payload(ls.skip(k as int)),
        decreases lines.len() - k,
    {
        let ghost rest = ls.skip(k as int);
        assert(rest[0] == lines@[k as int]@);
        assert(rest.drop_first() =~= ls.skip(k + 1));
        match data_payload_exec(lines[k].as_slice()) {
            Some(j) => {
                return Some(string_of(j.as_slice()));
            },
            None => {},
        }
        k += 1;
    }
    assert(ls.skip(k as int).len() == 0);
    let t = trim_chars(chars.as_slice());
    if t.len() > 0 && t[0] == '{' {
        Some(string_of(t.as_slice()))
    } else {
        None
    }
}

// ─── the initialize answer ───

/// What the JSON-RPC answer held (as read from the parsed frame).
pub struct InitReply {
    /// The answer's `id`, when it is an integer.
    pub id: Option<i64>,
    /// The `error` member, rendered as JSON text.
    pub error: Option<String>,
    pub has_result: bool,
    /// `result.serverInfo`, with its `name` and `version` when they are strings.
    pub server_info: Option<(Option<String>, Option<String>)>,
}

pub open spec fn or_unknown(o: Option<String>) -> Seq<char> {
    match o {
        Some(s) => s@,
        None => "unknown"@,
    }
}

/// The server name of an answer (`unknown` when absent).
pub open spec fn reply_name(r: InitReply) -> Seq<char> {
    match r.server_info {
        Some((n, _)) => or_unknown(n),
        None => "unknown"@,
    }
}

/// The server version of an answer (`unknown` when absent).
pub open spec fn reply_version(r: InitReply) -> Seq<char> {
    match r.server_info {
        Some((_, v)) => or_unknown(v),
        None => "unknown"@,
    }
}

/// Checks the `initialize` answer: id 1, no error, a result with a server
/// info (name and version default to `unknown`). Failures are `bad_protocol`.
pub fn check_init_reply(reply: InitReply) -> (r: Result<ServerInfoDto, (String, String)>)
    ensures
        reply.id != Some(1i64) ==> (r matches Err((reason, detail)) && reason@ == "bad_protocol"@
            && detail@ == "响应 id 不匹配"@),
        reply.id == Some(1i64) && reply.error is Some ==> (r matches Err((reason, detail)) && reason@
            == "bad_protocol"@ && detail@ == "server 返回错误: "@ + reply.error->0@),
        reply.id == Some(1i64) && reply.error is None && !reply.has_result ==> (r matches Err(
            (reason, detail),
        ) && reason@ == "bad_protocol"@ && detail@ == "响应无 result 字段"@),
        reply.id == Some(1i64) && reply.error is None && reply.has_result && reply.server_info is None
            ==> (r matches Err((reason, detail)) && reason@ == "bad_protocol"@ && detail@
            == "响应无 serverInfo"@),
        reply.id == Some(1i64) && reply.error is None && reply.has_result
            && reply.server_info is Some ==> (r matches Ok(info) && info.name@ == reply_name(reply)
            && info.version@ == reply_version(reply)),
{
    let bad = "bad_protocol".to_owned();
    if reply.id != Some(1i64) {
        return Err((bad, "响应 id 不匹配".to_owned()));
    }
    if let Some(e) = &reply.error {
        let mut v = chars_of("server 返回错误: ");
        push_str(&mut v, e.as_str());
        return Err((bad, string_of(v.as_slice())));
    }
    if !reply.has_result {
        return Err((bad, "响应无 result 字段".to_owned()));
    }
    match reply.server_info {
        None => Err((bad, "响应无 serverInfo".to_owned())),
        Some((name, version)) => {
            let n = match name {
                Some(s) => s,
                None => "unknown".to_owned(),
            };
            let v = match version {
                Some(s) => s,
                None => "unknown".to_owned(),
            };
            Ok(ServerInfoDto { name: n, version: v })
        },
    }
}

/// How the health check ended.
pub enum ProbeOutcome {
    Ready(ServerInfoDto),
    /// A classified failure: reason code and detail.
    Failed(String, String),
    /// No answer within the time limit.
    TimedOut,
}

pub open spec fn probe_timeout_text() -> Seq<char> {
    "健康检查超时（2s）"@
}

/// The probe result for an endpoint.
pub fn probe_result(exe_path: &str, probed_at: String, outcome: ProbeOutcome) -> (r: McpProbeResult)
    ensures
        r.exe_path@ == exe_path@,
        r.probed_at == probed_at,
        match outcome {
            ProbeOutcome::Ready(info) => r.ok && r.reason is None && r.detail is None
                && r.server_info == Some(info),
            ProbeOutcome::Failed(reason, detail) => !r.ok && r.reason == Some(reason) && r.detail
                == Some(detail) && r.server_info is None,
            ProbeOutcome::TimedOut => !r.ok && r.server_info is None && (r.reason matches Some(x)
                && x@ == "timeout"@) && (r.detail matches Some(d) && d@ == probe_timeout_text()),
        },
{
    match outcome {
        ProbeOutcome::Ready(info) => McpProbeResult {
            ok: true,
            reason: None,
            detail: None,
            exe_path: exe_path.to_owned(),
            server_info: Some(info),
            probed_at,
        },
        ProbeOutcome::Failed(reason, detail) => McpProbeResult {
            ok: false,
            reason: Some(reason),
            detail: Some(detail),
            exe_path: exe_path.to_owned(),
            server_info: None,
            probed_at,
        },
        ProbeOutcome::TimedOut => fail(exe_path, "健康检查超时（2s）".to_owned(), probed_at, "timeout"),
    }
}

} // verus!
