//! The shell commands behind the structured MCP tools (`journal_query`,
//! `port_listen`, `process_list`, `file_search`, `service_control`) and the
//! checks that keep free text out of them: values that go into single-quoted
//! shell literals may hold no quote or backslash, unit and service names only
//! letters, digits and `-_@:.`, and every number is a number.
use vstd::prelude::*;

use crate::endpoint::trim_slashes_end;
use crate::text::{chars_of, decimal, has_char, push_all, push_decimal, push_str, same_text, string_of};
use crate::tools::{is_valid_unit_name, valid_unit_name};

verus! {

/// What a tool does with its arguments.
pub enum ToolCommand {
    /// Run this command on the asset.
    Run(String),
    /// Answer this error (nothing runs).
    Reject(String),
}

/// What `format!("{:?}", s)` shows of a string (quoted, escaped).
pub uninterp spec fn debug_text(s: Seq<char>) -> Seq<char>;

/// `format!("{:?}", s)`.
#[verifier::external_body]
pub(crate) fn debug_quoted(s: &str) -> (r: String)
    ensures
        r@ == debug_text(s@),
{
    format!("{:?}", s)
}

/// A present, non-empty argument.
pub open spec fn given(o: Option<String>) -> Option<Seq<char>> {
    match o {
        Some(s) => if s@.len() > 0 {
            Some(s@)
        } else {
            None
        },
        None => None,
    }
}

fn given_exec(o: &Option<String>) -> (r: Option<&str>)
    ensures
        match given(*o) {
            Some(t) => r matches Some(s) && s@ == t,
            None => r is None,
        },
{
    match o {
        Some(s) => if s.as_str().is_empty() {
            None
        } else {
            Some(s.as_str())
        },
        None => None,
    }
}

/// `min(v or default, max)`.
pub open spec fn bounded(v: Option<u64>, default: u64, max: u64) -> u64 {
    let x = match v {
        Some(x) => x,
        None => default,
    };
    if x < max {
        x
    } else {
        max
    }
}

fn bounded_exec(v: Option<u64>, default: u64, max: u64) -> (r: u64)
    ensures
        r == bounded(v, default, max),
{
    let x = match v {
        Some(x) => x,
        None => default,
    };
    if x < max {
        x
    } else {
        max
    }
}

/// A value that may go into a single-quoted shell literal.
pub open spec fn quote_safe(s: Seq<char>) -> bool {
    !s.contains('\'') && !s.contains('\\')
}

pub open spec fn quote_error_text(label: Seq<char>) -> Seq<char> {
    label + " 参数不允许包含单引号或反斜杠"@
}

pub open spec fn missing_asset_text() -> Seq<char> {
    "缺少 asset_id 参数"@
}

/// `prefix value suffix` for a present value, nothing otherwise.
pub open spec fn opt_piece(prefix: Seq<char>, val: Option<Seq<char>>, suffix: Seq<char>) -> Seq<char> {
    match val {
        Some(x) => prefix + x + suffix,
        None => Seq::empty(),
    }
}

pub open spec fn str_opt(o: Option<&str>) -> Option<Seq<char>> {
    match o {
        Some(s) => Some(s@),
        None => None,
    }
}

fn push_opt(v: &mut Vec<char>, prefix: &str, val: Option<&str>, suffix: &str)
    ensures
        final(v)@ == old(v)@ + opt_piece(prefix@, str_opt(val), suffix@),
{
    match val {
        Some(x) => {
            push_str(v, prefix);
            push_str(v, x);
            push_str(v, suffix);
            assert(v@ =~= old(v)@ + (prefix@ + x@ + suffix@));
        },
        None => {
            assert(v@ =~= old(v)@ + Seq::<char>::empty());
        },
    }
}

// ─── journal_query ───

pub open spec fn journal_prefix() -> Seq<char> {
    "command -v journalctl >/dev/null 2>&1 || { echo 'journalctl not found (non-systemd system?) — try /var/log via ssh_exec'; exit 127; }; env LC_ALL=C journalctl --no-pager -o short-iso -n "@
}

/// The `journalctl` query: its limit (default 100, at most 2000), unit,
/// time window and fixed-string filter.
pub open spec fn journal_text(
    limit: u64,
    unit: Option<Seq<char>>,
    since: Option<Seq<char>>,
    until: Option<Seq<char>>,
    grep: Option<Seq<char>>,
) -> Seq<char> {
    journal_prefix() + decimal(limit as nat) + opt_piece(" -u "@, unit, ""@) + opt_piece(
        " --since '"@,
        since,
        "'"@,
    ) + opt_piece(" --until '"@, until, "'"@) + opt_piece(" | env LC_ALL=C grep -F -- '"@, grep, "'"@)
}

pub open spec fn journal_plan(
    unit: Option<Seq<char>>,
    since: Option<Seq<char>>,
    until: Option<Seq<char>>,
    grep: Option<Seq<char>>,
    limit: Option<u64>,
    r: ToolCommand,
) -> bool {
    if unit is Some && !valid_unit_name(unit->0) {
        r matches ToolCommand::Reject(m) && m@ == "unit 参数含非法字符"@
    } else if since is Some && !quote_safe(since->0) {
        r matches ToolCommand::Reject(m) && m@ == quote_error_text("since"@)
    } else if until is Some && !quote_safe(until->0) {
        r matches ToolCommand::Reject(m) && m@ == quote_error_text("until"@)
    } else if grep is Some && !quote_safe(grep->0) {
        r matches ToolCommand::Reject(m) && m@ == quote_error_text("grep"@)
    } else {
        r matches ToolCommand::Run(c) && c@ == journal_text(
            bounded(limit, 100, 2000),
            unit,
            since,
            until,
            grep,
        )
    }
}

fn quote_safe_exec(s: &str) -> (b: bool)
    ensures
        b == quote_safe(s@),
{
    let c = chars_of(s);
    !has_char(c.as_slice(), '\'') && !has_char(c.as_slice(), '\\')
}

fn quote_error(label: &str) -> (r: String)
    ensures
        r@ == quote_error_text(label@),
{
    let mut v = chars_of(label);
    push_str(&mut v, " 参数不允许包含单引号或反斜杠");
    string_of(v.as_slice())
}

/// The `journal_query` command (empty arguments count as absent).
pub fn journal_query_command(
    asset_id: &Option<String>,
    unit: &Option<String>,
    since: &Option<String>,
    until: &Option<String>,
    grep: &Option<String>,
    limit: Option<u64>,
) -> (r: Result<ToolCommand, String>)
    ensures
        given(*asset_id) is None ==> (r matches Err(e) && e@ == missing_asset_text()),
        given(*asset_id) is Some ==> (r matches Ok(c) && journal_plan(
            given(*unit),
            given(*since),
            given(*until),
            given(*grep),
            limit,
            c,
        )),
{
    if given_exec(asset_id).is_none() {
        return Err("缺少 asset_id 参数".to_owned());
    }
    let unit_v = given_exec(unit);
    let since_v = given_exec(since);
    let until_v = given_exec(until);
    let grep_v = given_exec(grep);
    let limit = bounded_exec(limit, 100, 2000);
    if let Some(u) = unit_v {
        if !is_valid_unit_name(u) {
            return Ok(ToolCommand::Reject("unit 参数含非法字符".to_owned()));
        }
    }
    if let Some(s) = since_v {
        if !quote_safe_exec(s) {
            return Ok(ToolCommand::Reject(quote_error("since")));
        }
    }
    if let Some(s) = until_v {
        if !quote_safe_exec(s) {
            return Ok(ToolCommand::Reject(quote_error("until")));
        }
    }
    if let Some(g) = grep_v {
        if !quote_safe_exec(g) {
            return Ok(ToolCommand::Reject(quote_error("grep")));
        }
    }
    Ok(ToolCommand::Run(journal_text_exec(limit, unit_v, since_v, until_v, grep_v)))
}

fn journal_text_exec(
    limit: u64,
    unit: Option<&str>,
    since: Option<&str>,
    until: Option<&str>,
    grep: Option<&str>,
) -> (r: String)
    ensures
        r@ == journal_text(limit, str_opt(unit), str_opt(since), str_opt(until), str_opt(grep)),
{
    proof {
        reveal_strlit("");
    }
    let mut v = chars_of(
        "command -v journalctl >/dev/null 2>&1 || { echo 'journalctl not found (non-systemd system?) — try /var/log via ssh_exec'; exit 127; }; env LC_ALL=C journalctl --no-pager -o short-iso -n ",
    );
    push_decimal(&mut v, limit as u128);
    push_opt(&mut v, " -u ", unit, "");
    push_opt(&mut v, " --since '", since, "'");
    push_opt(&mut v, " --until '", until, "'");
    push_opt(&mut v, " | env LC_ALL=C grep -F -- '", grep, "'");
    string_of(v.as_slice())
}

// ─── port_listen ───

/// The listening-ports chain (`ss`, then `netstat`, then `lsof`), TCP only or
/// TCP, UDP and Unix sockets.
pub open spec fn port_listen_text(tcp_only: bool) -> Seq<char> {
    let f = if tcp_only {
        "t"@
    } else {
        "tun"@
    };
    let l = if tcp_only {
        "T"@
    } else {
        Seq::empty()
    };
    "if command -v ss >/dev/null 2>&1; then echo '[ss]'; env LC_ALL=C ss -"@ + f
        + "lp; elif command -v netstat >/dev/null 2>&1; then echo '[netstat]'; env LC_ALL=C netstat -"@
        + f + "p 2>/dev/null || env LC_ALL=C netstat -"@ + f
        + "; elif command -v lsof >/dev/null 2>&1; then echo '[lsof]'; env LC_ALL=C lsof -nP -i"@ + l
        + " | env LC_ALL=C grep LISTEN; else echo 'no ss/netstat/lsof available'; exit 127; fi; echo rc_chain=$?"@
}

pub fn port_listen_command(asset_id: &Option<String>, tcp_only: Option<bool>) -> (r: Result<String, String>)
    ensures
        given(*asset_id) is None ==> (r matches Err(e) && e@ == missing_asset_text()),
        given(*asset_id) is Some ==> (r matches Ok(c) && c@ == port_listen_text(
            match tcp_only {
                Some(b) => b,
                None => false,
            },
        )),
{
    if given_exec(asset_id).is_none() {
        return Err("缺少 asset_id 参数".to_owned());
    }
    let t = match tcp_only {
        Some(b) => b,
        None => false,
    };
    let f = if t {
        "t"
    } else {
        "tun"
    };
    let l = if t {
        "T"
    } else {
        ""
    };
    proof {
        reveal_strlit("");
    }
    let mut v = chars_of("if command -v ss >/dev/null 2>&1; then echo '[ss]'; env LC_ALL=C ss -");
    push_str(&mut v, f);
    push_str(&mut v, "lp; elif command -v netstat >/dev/null 2>&1; then echo '[netstat]'; env LC_ALL=C netstat -");
    push_str(&mut v, f);
    push_str(&mut v, "p 2>/dev/null || env LC_ALL=C netstat -");
    push_str(&mut v, f);
    push_str(&mut v, "; elif command -v lsof >/dev/null 2>&1; then echo '[lsof]'; env LC_ALL=C lsof -nP -i");
    push_str(&mut v, l);
    push_str(
        &mut v,
        " | env LC_ALL=C grep LISTEN; else echo 'no ss/netstat/lsof available'; exit 127; fi; echo rc_chain=$?",
    );
    assert(v@ =~= port_listen_text(t));
    Ok(string_of(v.as_slice()))
}

// ─── process_list ───

/// The process list sorted on column `key` (4 = %cpu, 5 = %mem), first
/// `limit` lines, with the busybox fallback.
pub open spec fn process_list_text(key: Seq<char>, limit: u64) -> Seq<char> {
    let n = decimal(limit as nat);
    "__t=$(mktemp 2>/dev/null || echo /tmp/.myshelltool-ps.$$); if env LC_ALL=C ps -eo pid,ppid,user,%cpu,%mem,rss,stat,etime,comm --no-headers >$__t 2>/dev/null && grep -q . $__t; then env LC_ALL=C sort -k"@
        + key + " -nr <$__t | head -"@ + n
        + "; elif env LC_ALL=C ps -eo pid,ppid,user,%cpu,%mem,rss,stat,etime,comm >$__t 2>/dev/null && grep -q . $__t; then env LC_ALL=C sort -k"@
        + key + " -nr <$__t | head -"@ + n
        + "; elif env LC_ALL=C ps -eo pid,ppid,user,rss,stat,comm >$__t 2>/dev/null && grep -q . $__t; then echo '# busybox ps 无 %cpu/%mem 列：sortBy 已按 RSS(kB) 降序替代'; env LC_ALL=C sort -k4 -nr <$__t | head -"@
        + n
        + "; else echo 'process_list: 所有 ps 形态均失败（procps 与 busybox 列集都不可用）'; false; fi; rc=$?; rm -f $__t 2>/dev/null; echo rc_chain=$rc"@
}

pub open spec fn sort_by_error_text(other: Seq<char>) -> Seq<char> {
    "sortBy 仅支持 cpu / mem（收到 "@ + debug_text(other) + "）"@
}

pub fn process_list_command(asset_id: &Option<String>, sort_by: &Option<String>, limit: Option<u64>) -> (r:
    Result<ToolCommand, String>)
    ensures
        given(*asset_id) is None ==> (r matches Err(e) && e@ == missing_asset_text()),
        given(*asset_id) is Some ==> (r matches Ok(c) && match *sort_by {
            Some(s) => if s@ == "cpu"@ {
                c matches ToolCommand::Run(t) && t@ == process_list_text("4"@, bounded(limit, 20, 200))
            } else if s@ == "mem"@ {
                c matches ToolCommand::Run(t) && t@ == process_list_text("5"@, bounded(limit, 20, 200))
            } else {
                c matches ToolCommand::Reject(m) && m@ == sort_by_error_text(s@)
            },
            None => c matches ToolCommand::Run(t) && t@ == process_list_text(
                "5"@,
                bounded(limit, 20, 200),
            ),
        }),
{
    if given_exec(asset_id).is_none() {
        return Err("缺少 asset_id 参数".to_owned());
    }
    let key = match sort_by {
        Some(s) => if same_text(s.as_str(), "cpu") {
            "4"
        } else if same_text(s.as_str(), "mem") {
            "5"
        } else {
            let mut m = chars_of("sortBy 仅支持 cpu / mem（收到 ");
            let d = debug_quoted(s.as_str());
            push_str(&mut m, d.as_str());
            push_str(&mut m, "）");
            return Ok(ToolCommand::Reject(string_of(m.as_slice())));
        },
        None => "5",
    };
    let limit = bounded_exec(limit, 20, 200);
    let mut v = chars_of(
        "__t=$(mktemp 2>/dev/null || echo /tmp/.myshelltool-ps.$$); if env LC_ALL=C ps -eo pid,ppid,user,%cpu,%mem,rss,stat,etime,comm --no-headers >$__t 2>/dev/null && grep -q . $__t; then env LC_ALL=C sort -k",
    );
    push_str(&mut v, key);
    push_str(&mut v, " -nr <$__t | head -");
    push_decimal(&mut v, limit as u128);
    push_str(
        &mut v,
        "; elif env LC_ALL=C ps -eo pid,ppid,user,%cpu,%mem,rss,stat,etime,comm >$__t 2>/dev/null && grep -q . $__t; then env LC_ALL=C sort -k",
    );
    push_str(&mut v, key);
    push_str(&mut v, " -nr <$__t | head -");
    push_decimal(&mut v, limit as u128);
    push_str(
        &mut v,
        "; elif env LC_ALL=C ps -eo pid,ppid,user,rss,stat,comm >$__t 2>/dev/null && grep -q . $__t; then echo '# busybox ps 无 %cpu/%mem 列：sortBy 已按 RSS(kB) 降序替代'; env LC_ALL=C sort -k4 -nr <$__t | head -",
    );
    push_decimal(&mut v, limit as u128);
    push_str(
        &mut v,
        "; else echo 'process_list: 所有 ps 形态均失败（procps 与 busybox 列集都不可用）'; false; fi; rc=$?; rm -f $__t 2>/dev/null; echo rc_chain=$rc",
    );
    assert(v@ =~= process_list_text(key@, limit));
    Ok(ToolCommand::Run(string_of(v.as_slice())))
}

// ─── file_search ───

pub open spec fn size_piece(min_size_mb: Option<u64>) -> Seq<char> {
    match min_size_mb {
        Some(mb) => "-size +"@ + decimal(mb as nat) + "M "@,
        None => Seq::empty(),
    }
}

pub open spec fn mtime_piece(mtime_days: Option<i64>) -> Seq<char> {
    match mtime_days {
        Some(d) => if d < 0 {
            "-mtime -"@ + decimal((-d) as nat) + " "@
        } else {
            "-mtime +"@ + decimal(d as nat) + " "@
        },
        None => Seq::empty(),
    }
}

fn push_size(v: &mut Vec<char>, min_size_mb: Option<u64>)
    ensures
        final(v)@ == old(v)@ + size_piece(min_size_mb),
{
    if let Some(mb) = min_size_mb {
        push_str(v, "-size +");
        push_decimal(v, mb as u128);
        push_str(v, "M ");
    }
    assert(v@ =~= old(v)@ + size_piece(min_size_mb));
}

fn push_mtime(v: &mut Vec<char>, mtime_days: Option<i64>)
    requires
        mtime_days != Some(i64::MIN),
    ensures
        final(v)@ == old(v)@ + mtime_piece(mtime_days),
{
    if let Some(d) = mtime_days {
        if d < 0 {
            push_str(v, "-mtime -");
            let mag: i64 = -d;
            push_decimal(v, mag as u128);
            push_str(v, " ");
        } else {
            push_str(v, "-mtime +");
            push_decimal(v, d as u128);
            push_str(v, " ");
        }
    }
    assert(v@ =~= old(v)@ + mtime_piece(mtime_days));
}

fn file_search_text_exec(
    path: &str,
    name: Option<&str>,
    min_size_mb: Option<u64>,
    mtime_days: Option<i64>,
    limit: u64,
) -> (r: String)
    requires
        mtime_days != Some(i64::MIN),
    ensures
        r@ == file_search_text(path@, str_opt(name), min_size_mb, mtime_days, limit),
{
    let mut v = chars_of("__t=$(mktemp 2>/dev/null || echo /tmp/.myshelltool-find.$$); env LC_ALL=C find '");
    let mut trimmed = chars_of(path);
    let ghost full = trimmed@;
    while trimmed.len() > 0 && trimmed[trimmed.len() - 1] == '/'
        invariant
            trim_slashes_end(full) == trim_slashes_end(trimmed@),
        decreases trimmed.len(),
    {
        let ghost before = trimmed@;
        trimmed.pop();
        assert(trimmed@ =~= before.drop_last());
    }
    push_all(&mut v, trimmed.as_slice());
    push_str(&mut v, "' ");
    push_opt(&mut v, "-name '", name, "' ");
    push_size(&mut v, min_size_mb);
    push_mtime(&mut v, mtime_days);
    push_str(&mut v, ">\"$__t\" 2>/dev/null; __r=$?; echo rc_find=$__r; head -");
    push_decimal(&mut v, limit as u128);
    push_str(&mut v, " \"$__t\"; rm -f \"$__t\"");
    string_of(v.as_slice())
}

pub open spec fn path_unsafe_text() -> Seq<char> {
    "path 参数不允许包含分号或空格（含空格子目录请逐层进入）"@
}

/// `find` from `path` (trailing slashes dropped) with the optional name,
/// size and age filters, its status echoed, the first `limit` results.
pub open spec fn file_search_text(
    path: Seq<char>,
    name: Option<Seq<char>>,
    min_size_mb: Option<u64>,
    mtime_days: Option<i64>,
    limit: u64,
) -> Seq<char> {
    "__t=$(mktemp 2>/dev/null || echo /tmp/.myshelltool-find.$$); env LC_ALL=C find '"@
        + trim_slashes_end(path) + "' "@ + opt_piece("-name '"@, name, "' "@) + size_piece(min_size_mb)
        + mtime_piece(mtime_days) + ">\"$__t\" 2>/dev/null; __r=$?; echo rc_find=$__r; head -"@ + decimal(limit as nat)
        + " \"$__t\"; rm -f \"$__t\""@
}

pub fn file_search_command(
    asset_id: &Option<String>,
    path: &Option<String>,
    name: &Option<String>,
    min_size_mb: Option<u64>,
    mtime_days: Option<i64>,
    limit: Option<u64>,
) -> (r: Result<ToolCommand, String>)
    requires
        mtime_days != Some(i64::MIN),
    ensures
        given(*asset_id) is None ==> (r matches Err(e) && e@ == missing_asset_text()),
        given(*asset_id) is Some && given(*path) is None ==> (r matches Err(e) && e@
            == "缺少 path 参数（起始目录，如 /var/log）"@),
        given(*asset_id) is Some && given(*path) is Some ==> (r matches Ok(c) && {
            let p = given(*path)->0;
            if !quote_safe(p) {
                c matches ToolCommand::Reject(m) && m@ == quote_error_text("path"@)
            } else if p.contains(';') || p.contains(' ') {
                c matches ToolCommand::Reject(m) && m@ == path_unsafe_text()
            } else if given(*name) is Some && !quote_safe(given(*name)->0) {
                c matches ToolCommand::Reject(m) && m@ == quote_error_text("name"@)
            } else {
                c matches ToolCommand::Run(t) && t@ == file_search_text(
                    p,
                    given(*name),
                    min_size_mb,
                    mtime_days,
                    bounded(limit, 100, 1000),
                )
            }
        }),
{
    if given_exec(asset_id).is_none() {
        return Err("缺少 asset_id 参数".to_owned());
    }
    let p = match given_exec(path) {
        Some(p) => p,
        None => return Err("缺少 path 参数（起始目录，如 /var/log）".to_owned()),
    };
    let name_v = given_exec(name);
    let limit = bounded_exec(limit, 100, 1000);
    if !quote_safe_exec(p) {
        return Ok(ToolCommand::Reject(quote_error("path")));
    }
    let pc = chars_of(p);
    if has_char(pc.as_slice(), ';') || has_char(pc.as_slice(), ' ') {
        return Ok(ToolCommand::Reject("path 参数不允许包含分号或空格（含空格子目录请逐层进入）".to_owned()));
    }
    if let Some(n) = name_v {
        if !quote_safe_exec(n) {
            return Ok(ToolCommand::Reject(quote_error("name")));
        }
    }
    Ok(ToolCommand::Run(file_search_text_exec(p, name_v, min_size_mb, mtime_days, limit)))
}

// ─── service_control ───

pub open spec fn action_allowed(a: Seq<char>) -> bool {
    a == "start"@ || a == "stop"@ || a == "restart"@ || a == "reload"@
}

/// The action, then `systemctl is-active` to show the final state.
pub open spec fn service_control_text(action: Seq<char>, service: Seq<char>) -> Seq<char> {
    "env LC_ALL=C systemctl "@ + action + " "@ + service
        + " 2>&1; echo rc_ctl=$?; echo '---'; env LC_ALL=C systemctl is-active "@ + service
        + "; echo rc_active=$?"@
}

pub open spec fn action_error_text(action: Seq<char>) -> Seq<char> {
    "action 仅支持 start / stop / restart / reload（收到 "@ + debug_text(action) + "）"@
}

pub fn service_control_command(asset_id: &Option<String>, service: &Option<String>, action: &Option<String>) -> (r:
    Result<ToolCommand, String>)
    ensures
        given(*asset_id) is None ==> (r matches Err(e) && e@ == missing_asset_text()),
        given(*asset_id) is Some && given(*service) is None ==> (r matches Err(e) && e@
            == "缺少 service 参数"@),
        given(*asset_id) is Some && given(*service) is Some && given(*action) is None ==> (r matches Err(
            e,
        ) && e@ == "缺少 action 参数"@),
        given(*asset_id) is Some && given(*service) is Some && given(*action) is Some ==> (r matches Ok(
            c,
        ) && {
            let s = given(*service)->0;
            let a = given(*action)->0;
            if !valid_unit_name(s) {
                c matches ToolCommand::Reject(m) && m@ == "service 参数含非法字符"@
            } else if !action_allowed(a) {
                c matches ToolCommand::Reject(m) && m@ == action_error_text(a)
            } else {
                c matches ToolCommand::Run(t) && t@ == service_control_text(a, s)
            }
        }),
{
    if given_exec(asset_id).is_none() {
        return Err("缺少 asset_id 参数".to_owned());
    }
    let s = match given_exec(service) {
        Some(s) => s,
        None => return Err("缺少 service 参数".to_owned()),
    };
    let a = match given_exec(action) {
        Some(a) => a,
        None => return Err("缺少 action 参数".to_owned()),
    };
    if !is_valid_unit_name(s) {
        return Ok(ToolCommand::Reject("service 参数含非法字符".to_owned()));
    }
    if !(same_text(a, "start") || same_text(a, "stop") || same_text(a, "restart") || same_text(
        a,
        "reload",
    )) {
        let mut m = chars_of("action 仅支持 start / stop / restart / reload（收到 ");
        let d = debug_quoted(a);
        push_str(&mut m, d.as_str());
        push_str(&mut m, "）");
        return Ok(ToolCommand::Reject(string_of(m.as_slice())));
    }
    let mut v = chars_of("env LC_ALL=C systemctl ");
    push_str(&mut v, a);
    push_str(&mut v, " ");
    push_str(&mut v, s);
    push_str(&mut v, " 2>&1; echo rc_ctl=$?; echo '---'; env LC_ALL=C systemctl is-active ");
    push_str(&mut v, s);
    push_str(&mut v, "; echo rc_active=$?");
    Ok(ToolCommand::Run(string_of(v.as_slice())))
}

} // verus!
