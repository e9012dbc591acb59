//! The text the MCP tools answer with: the structured reply of a command
//! (exit line, stdout, stderr section, head-and-tail cut with a cursor to the
//! whole output), the pages of cached and job output, the job status and the
//! per-target results of a fan-out.
use vstd::prelude::*;

use vstd::string::StringSliceAdditionalSpecFns;

use crate::codec::{utf8_byte_len, utf8_bytes};
use crate::execution_log::{truncate_middle, truncated_middle};
use crate::headless::ExecOnceOutput;
use crate::job_store::{status_name, JobSnapshot};
use crate::output_cache::{OutputCache, MAX_CACHED};
use crate::text::{
    chars_of, decimal, has_prefix, join_with, push_all, push_decimal, push_str, same_text,
    starts_with_str, string_of,
};

verus! {

/// Reply text above this many characters is cut (head and tail kept).
pub const MAX_RETURN_CHARS: usize = 16000;

/// Characters kept from the head of a cut reply.
pub const TRUNCATE_HEAD: usize = 8000;

/// Characters kept from the tail of a cut reply.
pub const TRUNCATE_TAIL: usize = 8000;

pub open spec fn stderr_marker() -> Seq<char> {
    "\n--- stderr ---\n"@
}

pub open spec fn no_stdout_note() -> Seq<char> {
    "（命令无标准输出）"@
}

/// stdout (or `empty` when there is none), then the stderr section when
/// stderr is not empty.
pub open spec fn exec_body(stdout: Seq<char>, stderr: Seq<char>, empty: Seq<char>) -> Seq<char> {
    let head = if stdout.len() == 0 {
        empty
    } else {
        stdout
    };
    if stderr.len() == 0 {
        head
    } else {
        head + stderr_marker() + stderr
    }
}

pub fn exec_body_text(stdout: &str, stderr: &str, empty: &str) -> (r: Vec<char>)
    ensures
        r@ == exec_body(stdout@, stderr@, empty@),
{
    let mut v = if stdout.is_empty() {
        chars_of(empty)
    } else {
        chars_of(stdout)
    };
    if !stderr.is_empty() {
        push_str(&mut v, "\n--- stderr ---\n");
        push_str(&mut v, stderr);
    }
    v
}

/// `exit_code=N`, or `exit_code=unknown` without an exit status.
pub open spec fn exit_line(code: Option<u32>) -> Seq<char> {
    match code {
        Some(c) => "exit_code="@ + decimal(c as nat),
        None => "exit_code=unknown"@,
    }
}

fn push_exit_line(v: &mut Vec<char>, code: Option<u32>)
    ensures
        final(v)@ == old(v)@ + exit_line(code),
{
    match code {
        Some(c) => {
            push_str(v, "exit_code=");
            push_decimal(v, c as u128);
        },
        None => push_str(v, "exit_code=unknown"),
    }
}

/// The note in front of a cut reply.
pub open spec fn cut_note(total: nat, cursor: Seq<char>) -> Seq<char> {
    "[输出已截断：完整 "@ + decimal(total) + " 字符。原文可用 read_output 工具取回（cursor=\""@ + cursor
        + "\"，10 分钟内有效），或用 grep / tail -n / head -n 收窄命令重取]\n"@
}

/// The reply to a command: its exit line and body; a body over
/// `MAX_RETURN_CHARS` characters is stored whole under `cursor` and replaced
/// by the note and its head and tail.
pub open spec fn exec_reply(code: Option<u32>, body: Seq<char>, cursor: Seq<char>) -> Seq<char> {
    exit_line(code) + "\n"@ + if body.len() > MAX_RETURN_CHARS {
        cut_note(body.len(), cursor) + truncated_middle(body, TRUNCATE_HEAD as nat, TRUNCATE_TAIL as nat)
    } else {
        body
    }
}

/// The bytes of a string (`str::as_bytes`), as an owned vector.
fn text_bytes(s: &str) -> (r: Vec<u8>)
    ensures
        r@ == s.spec_bytes(),
{
    let b = s.as_bytes();
    let mut r: Vec<u8> = Vec::new();
    let mut i: usize = 0;
    while i < b.len()
        invariant
            i <= b@.len(),
            r@ == b@.take(i as int),
        decreases b.len() - i,
    {
        r.push(b[i]);
        i += 1;
        assert(r@ =~= b@.take(i as int));
    }
    assert(b@.take(b@.len() as int) =~= b@);
    r
}

/// The structured reply to a command run on an asset. A long body is stored
/// whole in `cache` (its UTF-8 bytes, under a fresh cursor) before it is cut.
pub fn exec_reply_text(output: &ExecOnceOutput, cache: &mut OutputCache) -> (r: String)
    ensures
        exec_body(output.stdout@, output.stderr@, no_stdout_note()).len() <= MAX_RETURN_CHARS ==> r@
            == exec_reply(output.exit_code, exec_body(output.stdout@, output.stderr@, no_stdout_note()), Seq::empty())
            && final(cache)@ == old(cache)@,
        exec_body(output.stdout@, output.stderr@, no_stdout_note()).len() > MAX_RETURN_CHARS ==> (
        exists|cursor: Seq<char>|
            r@ == exec_reply(
                output.exit_code,
                exec_body(output.stdout@, output.stderr@, no_stdout_note()),
                cursor,
            ) && crate::output_cache::entry_pos(final(cache)@, cursor) is Some)
            && final(cache)@.len() <= MAX_CACHED,
{
    let body = exec_body_text(output.stdout.as_str(), output.stderr.as_str(), "（命令无标准输出）");
    let mut v: Vec<char> = Vec::new();
    push_exit_line(&mut v, output.exit_code);
    v.push('\n');
    proof {
        reveal_strlit("\n");
    }
    if body.len() > MAX_RETURN_CHARS {
        let body_s = string_of(body.as_slice());
        let cursor = cache.store(text_bytes(body_s.as_str()));
        let total = body.len();
        push_str(&mut v, "[输出已截断：完整 ");
        push_decimal(&mut v, total as u128);
        push_str(&mut v, " 字符。原文可用 read_output 工具取回（cursor=\"");
        push_str(&mut v, cursor.as_str());
        push_str(&mut v, "\"，10 分钟内有效），或用 grep / tail -n / head -n 收窄命令重取]\n");
        let cut = truncate_middle(body_s.as_str(), TRUNCATE_HEAD, TRUNCATE_TAIL);
        push_str(&mut v, cut.as_str());
        assert(v@ =~= exec_reply(output.exit_code, body@, cursor@));
        let r = string_of(v.as_slice());
        assert(r@ == exec_reply(output.exit_code, body@, cursor@) && crate::output_cache::entry_pos(cache@, cursor@) is Some);
        r
    } else {
        push_all(&mut v, body.as_slice());
        assert(v@ =~= exec_reply(output.exit_code, body@, Seq::empty()));
        string_of(v.as_slice())
    }
}

// ─── paged output ───

/// The page size asked for: 64 KiB by default, at most 1 MiB.
pub open spec fn page_limit_of(requested: Option<u64>) -> nat {
    let l = match requested {
        Some(x) => x as nat,
        None => 65536,
    };
    if l < 1048576 {
        l
    } else {
        1048576
    }
}

pub fn page_limit(requested: Option<u64>) -> (r: usize)
    ensures
        r == page_limit_of(requested),
{
    let l: u64 = match requested {
        Some(x) => x,
        None => 65536,
    };
    if l < 1048576 {
        l as usize
    } else {
        1048576
    }
}

/// The page answered by `read_output`.
pub open spec fn read_output_reply(
    cursor: Seq<char>,
    offset: u64,
    chunk: Seq<char>,
    total: u64,
    eof: bool,
    dropped: u64,
) -> Seq<char> {
    "[read_output cursor="@ + cursor + "：总 "@ + decimal(total as nat) + " 字节，本段 offset="@
        + decimal(offset as nat) + " 起 "@ + decimal(utf8_bytes(chunk)) + " 字节，"@ + (if eof {
        "已到末尾（EOF）"@
    } else {
        "未完，继续传 offset 取下一段"@ + "，下一段 offset="@ + decimal(
            (offset + utf8_bytes(chunk)) as nat,
        )
    }) + "]"@ + (if dropped > 0 {
        "\n[注：该输出开头 "@ + decimal(dropped as nat) + " 字节因超出单条缓存上限（8 MiB）未保留]"@
    } else {
        Seq::empty()
    }) + "\n"@ + chunk
}

pub fn read_output_text(cursor: &str, offset: u64, chunk: &str, total: u64, eof: bool, dropped: u64) -> (r:
    String)
    ensures
        r@ == read_output_reply(cursor@, offset, chunk@, total, eof, dropped),
{
    let len = utf8_byte_len(chunk);
    let mut v = chars_of("[read_output cursor=");
    push_str(&mut v, cursor);
    push_str(&mut v, "：总 ");
    push_decimal(&mut v, total as u128);
    push_str(&mut v, " 字节，本段 offset=");
    push_decimal(&mut v, offset as u128);
    push_str(&mut v, " 起 ");
    push_decimal(&mut v, len);
    push_str(&mut v, " 字节，");
    if eof {
        push_str(&mut v, "已到末尾（EOF）");
    } else {
        push_str(&mut v, "未完，继续传 offset 取下一段");
        push_str(&mut v, "，下一段 offset=");
        push_decimal(&mut v, offset as u128 + len);
    }
    push_str(&mut v, "]");
    if dropped > 0 {
        push_str(&mut v, "\n[注：该输出开头 ");
        push_decimal(&mut v, dropped as u128);
        push_str(&mut v, " 字节因超出单条缓存上限（8 MiB）未保留]");
    }
    push_str(&mut v, "\n");
    push_str(&mut v, chunk);
    assert(v@ =~= read_output_reply(cursor@, offset, chunk@, total, eof, dropped));
    string_of(v.as_slice())
}

/// The page answered by `job_output`.
pub open spec fn job_output_reply(offset: u64, chunk: Seq<char>, total: u64, eof: bool, dropped: u64) -> Seq<char> {
    "[job_output：总 "@ + decimal(total as nat) + " 字节，本段 offset="@ + decimal(offset as nat)
        + " 起 "@ + decimal(utf8_bytes(chunk)) + " 字节，"@ + (if eof {
        "已到末尾（EOF）"@
    } else {
        "未完"@
    }) + "]"@ + (if dropped > 0 {
        "\n[注：该输出开头 "@ + decimal(dropped as nat) + " 字节因超单 job 上限（8 MiB）未保留]"@
    } else {
        Seq::empty()
    }) + "\n"@ + chunk
}

pub fn job_output_text(offset: u64, chunk: &str, total: u64, eof: bool, dropped: u64) -> (r: String)
    ensures
        r@ == job_output_reply(offset, chunk@, total, eof, dropped),
{
    let len = utf8_byte_len(chunk);
    let mut v = chars_of("[job_output：总 ");
    push_decimal(&mut v, total as u128);
    push_str(&mut v, " 字节，本段 offset=");
    push_decimal(&mut v, offset as u128);
    push_str(&mut v, " 起 ");
    push_decimal(&mut v, len);
    push_str(&mut v, " 字节，");
    if eof {
        push_str(&mut v, "已到末尾（EOF）");
    } else {
        push_str(&mut v, "未完");
    }
    push_str(&mut v, "]");
    if dropped > 0 {
        push_str(&mut v, "\n[注：该输出开头 ");
        push_decimal(&mut v, dropped as u128);
        push_str(&mut v, " 字节因超单 job 上限（8 MiB）未保留]");
    }
    push_str(&mut v, "\n");
    push_str(&mut v, chunk);
    assert(v@ =~= job_output_reply(offset, chunk@, total, eof, dropped));
    string_of(v.as_slice())
}

pub open spec fn bool_text(b: bool) -> Seq<char> {
    if b {
        "true"@
    } else {
        "false"@
    }
}

/// The status of a job as `key=value` lines.
pub open spec fn job_status_reply(job_id: Seq<char>, s: JobSnapshot) -> Seq<char> {
    "job_id="@ + job_id + "\nasset_id="@ + s.asset_id@ + "\nstatus="@ + status_name(s.status)
        + "\nexit_code="@ + (match s.exit_code {
        Some(c) => decimal(c as nat),
        None => "unknown"@,
    }) + "\nerror="@ + (match s.error {
        Some(e) => e@,
        None => "-"@,
    }) + "\noutput_bytes="@ + decimal(s.output_bytes as nat) + "\ndropped_head_bytes="@ + decimal(
        s.dropped_head_bytes as nat,
    ) + "\ncreated_ms="@ + decimal(s.created_ms as nat) + "\nfinished_ms="@ + (match s.finished_ms {
        Some(f) => decimal(f as nat),
        None => "-"@,
    }) + "\ncancel_requested="@ + bool_text(s.cancel_requested)
}

pub fn job_status_text(job_id: &str, s: &JobSnapshot) -> (r: String)
    ensures
        r@ == job_status_reply(job_id@, *s),
{
    let mut v = chars_of("job_id=");
    push_str(&mut v, job_id);
    push_str(&mut v, "\nasset_id=");
    push_str(&mut v, s.asset_id.as_str());
    push_str(&mut v, "\nstatus=");
    push_str(&mut v, s.status.as_str());
    push_str(&mut v, "\nexit_code=");
    match s.exit_code {
        Some(c) => push_decimal(&mut v, c as u128),
        None => push_str(&mut v, "unknown"),
    }
    push_str(&mut v, "\nerror=");
    match &s.error {
        Some(e) => push_str(&mut v, e.as_str()),
        None => push_str(&mut v, "-"),
    }
    push_str(&mut v, "\noutput_bytes=");
    push_decimal(&mut v, s.output_bytes as u128);
    push_str(&mut v, "\ndropped_head_bytes=");
    push_decimal(&mut v, s.dropped_head_bytes as u128);
    push_str(&mut v, "\ncreated_ms=");
    push_decimal(&mut v, s.created_ms as u128);
    push_str(&mut v, "\nfinished_ms=");
    match s.finished_ms {
        Some(f) => push_decimal(&mut v, f as u128),
        None => push_str(&mut v, "-"),
    }
    push_str(&mut v, "\ncancel_requested=");
    push_str(&mut v, if s.cancel_requested {
        "true"
    } else {
        "false"
    });
    assert(v@ =~= job_status_reply(job_id@, *s));
    string_of(v.as_slice())
}

// ─── list_sessions ───

pub open spec fn session_line(id: Seq<char>) -> Seq<char> {
    "- session_id: "@ + id
}

pub open spec fn session_lines(ids: Seq<String>) -> Seq<Seq<char>> {
    Seq::new(ids.len(), |i: int| session_line(ids[i]@))
}

pub open spec fn headless_sessions_text() -> Seq<char> {
    "当前处于 Headless/独立运行模式。建议直接使用基于 asset_id 的远程工具执行操作。"@
}

pub open spec fn no_sessions_text() -> Seq<char> {
    "当前客户端暂无活动 SSH 会话（可在 GUI 中连接主机，或直接使用基于 asset_id 的各项远程工具）。"@
}

/// The `list_sessions` reply: without a GUI (`None`) the headless note;
/// otherwise the GUI's session ids, one `- session_id:` line each.
pub open spec fn list_sessions_reply(ids: Option<Seq<String>>) -> Seq<char> {
    match ids {
        None => headless_sessions_text(),
        Some(v) => if v.len() == 0 {
            no_sessions_text()
        } else {
            "当前活动 SSH 会话列表（共 "@ + decimal(v.len()) + " 个）：\n"@ + join_with(session_lines(v), "\n"@)
        },
    }
}

pub fn list_sessions_text(ids: Option<Vec<String>>) -> (r: String)
    ensures
        r@ == list_sessions_reply(match ids {
            Some(v) => Some(v@),
            None => None,
        }),
{
    let v = match ids {
        None => {
            return string_of(chars_of(
                "当前处于 Headless/独立运行模式。建议直接使用基于 asset_id 的远程工具执行操作。",
            ).as_slice());
        },
        Some(v) => v,
    };
    if v.len() == 0 {
        return string_of(chars_of(
            "当前客户端暂无活动 SSH 会话（可在 GUI 中连接主机，或直接使用基于 asset_id 的各项远程工具）。",
        ).as_slice());
    }
    let ghost lines = session_lines(v@);
    let mut out: Vec<char> = Vec::new();
    let mut k: usize = 0;
    while k < v.len()
        invariant
            k <= v@.len(),
            lines == session_lines(v@),
            out@ == join_with(lines.take(k as int), "\n"@),
        decreases v.len() - k,
    {
        let ghost before = out@;
        if k > 0 {
            push_str(&mut out, "\n");
        }
        push_str(&mut out, "- session_id: ");
        push_str(&mut out, v[k].as_str());
        proof {
            let t = lines.take(k as int + 1);
            assert(t.drop_last() =~= lines.take(k as int));
            assert(t.last() == lines[k as int]);
            assert(lines[k as int] == session_line(v@[k as int]@));
            if k == 0 {
                assert(out@ =~= join_with(t, "\n"@));
            } else {
                assert(out@ =~= before + "\n"@ + lines[k as int]);
            }
        }
        k += 1;
    }
    proof {
        assert(lines.take(v@.len() as int) =~= lines);
    }
    let mut r = chars_of("当前活动 SSH 会话列表（共 ");
    push_decimal(&mut r, v.len() as u128);
    push_str(&mut r, " 个）：\n");
    push_all(&mut r, out.as_slice());
    string_of(r.as_slice())
}

// ─── fan-out ───

/// At most this many targets per fan-out.
pub const MAX_FANOUT_TARGETS: usize = 64;

/// Per-target output limit (characters) and the head and tail kept.
pub const PER_TARGET_LIMIT: usize = 16000;

/// The result of one target of a fan-out.
pub struct FanoutTarget {
    pub asset_id: String,
    pub asset_name: String,
    /// `ok`, `error`, or the scope verdict (`denied_*` / `deny_all`).
    pub status: String,
    pub exit_code: Option<u32>,
    pub output: String,
    pub truncated: bool,
    pub error: Option<String>,
    /// `gui` / `pool` / `new`.
    pub session_source: Option<String>,
}

pub struct FanoutOutcome {
    pub targets: Vec<FanoutTarget>,
}

pub open spec fn too_many_targets_text(n: nat) -> Seq<char> {
    "单次批量上限 64 台（收到 "@ + decimal(n) + "）——更大批量请分批执行，防 MaxStartups 与输出爆上下文"@
}

/// A fan-out needs one to `MAX_FANOUT_TARGETS` targets.
pub fn check_fanout_size(n: usize) -> (r: Result<(), String>)
    ensures
        n == 0 ==> (r matches Err(e) && e@ == "asset_ids 不能为空"@),
        n > MAX_FANOUT_TARGETS ==> (r matches Err(e) && e@ == too_many_targets_text(n as nat)),
        0 < n <= MAX_FANOUT_TARGETS ==> r is Ok,
{
    if n == 0 {
        return Err("asset_ids 不能为空".to_owned());
    }
    if n > MAX_FANOUT_TARGETS {
        let mut v = chars_of("单次批量上限 64 台（收到 ");
        push_decimal(&mut v, n as u128);
        push_str(&mut v, "）——更大批量请分批执行，防 MaxStartups 与输出爆上下文");
        assert(v@ =~= too_many_targets_text(n as nat));
        return Err(string_of(v.as_slice()));
    }
    Ok(())
}

/// A target that failed before running (unknown asset, task failure).
pub fn failed_target(asset_id: String, asset_name: String, error: String) -> (t: FanoutTarget)
    ensures
        t.asset_id == asset_id,
        t.asset_name == asset_name,
        t.status@ == "error"@,
        t.exit_code is None,
        t.output@.len() == 0,
        !t.truncated,
        t.error == Some(error),
        t.session_source is None,
{
    FanoutTarget {
        asset_id,
        asset_name,
        status: "error".to_owned(),
        exit_code: None,
        output: String::new(),
        truncated: false,
        error: Some(error),
        session_source: None,
    }
}

/// A target the scope refused (`verdict` is the scope's verdict name).
pub fn denied_target(asset_id: String, asset_name: String, verdict: &str) -> (t: FanoutTarget)
    ensures
        t.asset_id == asset_id,
        t.asset_name == asset_name,
        t.status@ == verdict@,
        t.exit_code is None,
        t.output@.len() == 0,
        !t.truncated,
        t.error is None,
        t.session_source is None,
{
    FanoutTarget {
        asset_id,
        asset_name,
        status: verdict.to_owned(),
        exit_code: None,
        output: String::new(),
        truncated: false,
        error: None,
        session_source: None,
    }
}

/// A target that ran: stdout and the stderr section, cut to head and tail
/// beyond `PER_TARGET_LIMIT` characters.
pub fn ran_target(asset_id: String, asset_name: String, output: &ExecOnceOutput, source: &str) -> (t:
    FanoutTarget)
    ensures
        t.asset_id == asset_id,
        t.asset_name == asset_name,
        t.status@ == "ok"@,
        t.exit_code == output.exit_code,
        t.truncated == (exec_body(output.stdout@, output.stderr@, Seq::empty()).len()
            > PER_TARGET_LIMIT),
        t.output@ == (if t.truncated {
            truncated_middle(exec_body(output.stdout@, output.stderr@, Seq::empty()), 8000, 8000)
        } else {
            exec_body(output.stdout@, output.stderr@, Seq::empty())
        }),
        t.error is None,
        t.session_source matches Some(s) && s@ == source@,
{
    proof {
        reveal_strlit("");
    }
    let body = exec_body_text(output.stdout.as_str(), output.stderr.as_str(), "");
    let truncated = body.len() > PER_TARGET_LIMIT;
    let body_s = string_of(body.as_slice());
    let out = if truncated {
        truncate_middle(body_s.as_str(), 8000, 8000)
    } else {
        body_s
    };
    FanoutTarget {
        asset_id,
        asset_name,
        status: "ok".to_owned(),
        exit_code: output.exit_code,
        output: out,
        truncated,
        error: None,
        session_source: Some(source.to_owned()),
    }
}

/// Counts of a fan-out by result.
pub struct FanoutSummary {
    pub total: usize,
    pub ok: usize,
    pub denied: usize,
    pub errors: usize,
    pub truncated: usize,
}

pub open spec fn is_denied(status: Seq<char>) -> bool {
    has_prefix(status, "denied"@) || status == "deny_all"@
}

/// How many targets satisfy each class.
pub open spec fn count_ok(t: Seq<FanoutTarget>) -> nat
    decreases t.len(),
{
    if t.len() == 0 {
        0
    } else {
        count_ok(t.drop_last()) + if t.last().status@ == "ok"@ {
            1nat
        } else {
            0nat
        }
    }
}

pub open spec fn count_denied(t: Seq<FanoutTarget>) -> nat
    decreases t.len(),
{
    if t.len() == 0 {
        0
    } else {
        count_denied(t.drop_last()) + if is_denied(t.last().status@) {
            1nat
        } else {
            0nat
        }
    }
}

pub open spec fn count_errors(t: Seq<FanoutTarget>) -> nat
    decreases t.len(),
{
    if t.len() == 0 {
        0
    } else {
        count_errors(t.drop_last()) + if t.last().status@ == "error"@ {
            1nat
        } else {
            0nat
        }
    }
}

pub open spec fn count_truncated(t: Seq<FanoutTarget>) -> nat
    decreases t.len(),
{
    if t.len() == 0 {
        0
    } else {
        count_truncated(t.drop_last()) + if t.last().truncated {
            1nat
        } else {
            0nat
        }
    }
}

proof fn lemma_counts_bounded(t: Seq<FanoutTarget>)
    ensures
        count_ok(t) <= t.len(),
        count_denied(t) <= t.len(),
        count_errors(t) <= t.len(),
        count_truncated(t) <= t.len(),
    decreases t.len(),
{
    if t.len() > 0 {
        lemma_counts_bounded(t.drop_last());
    }
}

/// The counts of a fan-out.
pub fn summarize_counts(outcome: &FanoutOutcome) -> (s: FanoutSummary)
    ensures
        s.total == outcome.targets@.len(),
        s.ok == count_ok(outcome.targets@),
        s.denied == count_denied(outcome.targets@),
        s.errors == count_errors(outcome.targets@),
        s.truncated == count_truncated(outcome.targets@),
{
    let t = &outcome.targets;
    let mut ok: usize = 0;
    let mut denied: usize = 0;
    let mut errors: usize = 0;
    let mut truncated: usize = 0;
    let mut i: usize = 0;
    while i < outcome.targets.len()
        invariant
            i <= outcome.targets@.len(),
            ok == count_ok(outcome.targets@.take(i as int)),
            denied == count_denied(outcome.targets@.take(i as int)),
            errors == count_errors(outcome.targets@.take(i as int)),
            truncated == count_truncated(outcome.targets@.take(i as int)),
        decreases outcome.targets.len() - i,
    {
        let ghost p = outcome.targets@.take(i + 1);
        assert(p.drop_last() =~= outcome.targets@.take(i as int));
        proof {
            lemma_counts_bounded(outcome.targets@.take(i as int));
        }
        let st = outcome.targets[i].status.as_str();
        if same_text(st, "ok") {
            ok += 1;
        }
        if starts_with_str(chars_of(st).as_slice(), "denied") || same_text(st, "deny_all") {
            denied += 1;
        }
        if same_text(st, "error") {
            errors += 1;
        }
        if outcome.targets[i].truncated {
            truncated += 1;
        }
        i += 1;
    }
    assert(outcome.targets@.take(outcome.targets@.len() as int) =~= outcome.targets@);
    FanoutSummary { total: outcome.targets.len(), ok, denied, errors, truncated }
}

/// Law: a fan-out's classes never exceed its size, and `ok`, `denied` and
/// `error` are exclusive (their counts add up to at most the total).
pub proof fn lemma_fanout_counts(t: Seq<FanoutTarget>)
    ensures
        count_ok(t) + count_denied(t) + count_errors(t) <= t.len(),
        count_truncated(t) <= t.len(),
    decreases t.len(),
{
    if t.len() > 0 {
        lemma_fanout_counts(t.drop_last());
        let s = t.last().status@;
        reveal_strlit("ok");
        reveal_strlit("error");
        reveal_strlit("denied");
        reveal_strlit("deny_all");
        if s == "ok"@ {
            assert(!has_prefix(s, "denied"@));
        }
        if s == "error"@ {
            assert(!has_prefix(s, "denied"@));
        }
    }
}

} // verus!
