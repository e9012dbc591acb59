//! Per-call approval policy of the MCP server and the execution-log scope.
//!
//! Before a tool call is dispatched, `check_approval_needed` decides whether it
//! runs, is refused, or needs the user's confirmation; `log_scope_for` decides
//! whether (and as what) it is written to the execution log. Constant
//! exceptions precede the interception level: catastrophic removals and writes
//! into protected local directories are always refused, sensitive reads always
//! need confirmation.
use vstd::prelude::*;

use crate::approval::{
    evaluate, evaluation_ok, ApprovalDecision, AutoApproveReason, CommandRisk, DangerousMatch,
    ElicitationInfo,
};
use crate::config::McpInterceptLevel;
use crate::execution_log::{
    AUTO_APPROVED, HARD_BLOCKED, MINIMAL_ALLOWED, NOT_REQUIRED, REJECTED, TIMEOUT,
};
use crate::file_policy::{
    catastrophic_removal, is_catastrophic_remote_removal, is_sensitive_remote_path, sensitive,
};
use crate::text::{chars_of, eq_str, push_all, push_str, string_of};
use crate::tools::{service_status_command, service_status_text, CMD_DISK_USAGE, CMD_SYSTEM_STATUS};

verus! {

/// The tool-call arguments the policy reads (a missing or non-string value is `None`).
pub struct ToolArgs {
    pub asset_id: Option<String>,
    pub intent: Option<String>,
    pub command: Option<String>,
    pub path: Option<String>,
    pub recursive: Option<bool>,
    pub local_path: Option<String>,
    pub remote_path: Option<String>,
    pub service: Option<String>,
}

/// What the command classifier said of a shell command.
pub struct CommandClass {
    /// The catastrophic-layer match, if any.
    pub catastrophic: Option<DangerousMatch>,
    /// The classifier's verdict.
    pub risk: CommandRisk,
}

/// Whether a local download target exists (an error other than "not found"
/// counts as "may exist").
#[derive(Debug, Clone, Copy, PartialEq, Eq, Structural)]
pub enum LocalProbe {
    Exists,
    NotFound,
    Unknown,
}

/// What is known about the local target of a download.
pub struct LocalTarget {
    /// The path resolves into a protected system directory.
    pub protected: bool,
    pub probe: LocalProbe,
}

pub open spec fn arg_or(o: Option<String>, d: Seq<char>) -> Seq<char> {
    match o {
        Some(s) => s@,
        None => d,
    }
}

fn arg_or_exec(o: &Option<String>, d: &str) -> (r: Vec<char>)
    ensures
        r@ == arg_or(*o, d@),
{
    match o {
        Some(s) => chars_of(s.as_str()),
        None => chars_of(d),
    }
}

pub open spec fn bool_text(b: bool) -> Seq<char> {
    if b {
        "true"@
    } else {
        "false"@
    }
}

/// Execution-log scope of a call: tool, real command, asset, declared intent.
pub struct LogScope {
    pub tool: String,
    pub command: String,
    pub asset_id: String,
    pub intent: String,
}

/// The (tool, command) logged for a tool name and its arguments; `None` for
/// tools that do not reach a remote host.
pub open spec fn scope_spec(tool: Seq<char>, a: ToolArgs) -> Option<(Seq<char>, Seq<char>)> {
    if tool == "ssh_exec"@ {
        Some((tool, arg_or(a.command, ""@)))
    } else if tool == "disk_usage"@ {
        Some((tool, CMD_DISK_USAGE@))
    } else if tool == "system_status"@ {
        Some((tool, CMD_SYSTEM_STATUS@))
    } else if tool == "service_status"@ {
        Some((tool, service_status_text(arg_or(a.service, ""@))))
    } else if tool == "sftp_remove"@ {
        Some((tool, "remove "@ + arg_or(a.path, ""@)))
    } else if tool == "sftp_list"@ {
        Some((tool, "list "@ + arg_or(a.path, "."@)))
    } else if tool == "sftp_read_file"@ {
        Some((tool, "read "@ + arg_or(a.path, ""@)))
    } else if tool == "sftp_write_file"@ {
        Some((tool, "write "@ + arg_or(a.path, ""@)))
    } else if tool == "sftp_upload"@ {
        Some((tool, "upload "@ + arg_or(a.local_path, ""@) + " -> "@ + arg_or(a.remote_path, ""@)))
    } else if tool == "sftp_download"@ {
        Some((tool, "download "@ + arg_or(a.remote_path, ""@) + " -> "@ + arg_or(a.local_path, ""@)))
    } else if tool == "resource_monitor_snapshot"@ {
        Some((tool, "snapshot"@))
    } else {
        None
    }
}

fn scope_of(tool: &str, command: Vec<char>, a: &ToolArgs) -> (r: LogScope)
    ensures
        r.tool@ == tool@,
        r.command@ == command@,
        r.asset_id@ == arg_or(a.asset_id, ""@),
        r.intent@ == arg_or(a.intent, ""@),
{
    LogScope {
        tool: string_of(chars_of(tool).as_slice()),
        command: string_of(command.as_slice()),
        asset_id: string_of(arg_or_exec(&a.asset_id, "").as_slice()),
        intent: string_of(arg_or_exec(&a.intent, "").as_slice()),
    }
}

fn prefixed(prefix: &str, rest: Vec<char>) -> (r: Vec<char>)
    ensures
        r@ == prefix@ + rest@,
{
    let mut v = chars_of(prefix);
    push_all(&mut v, rest.as_slice());
    v
}

/// The execution-log scope of a call, or `None` when the call does not reach a
/// remote host (or carries no arguments at all).
pub fn log_scope_for(tool_name: &str, arguments: &Option<ToolArgs>) -> (r: Option<LogScope>)
    ensures
        match *arguments {
            None => r is None,
            Some(a) => match scope_spec(tool_name@, a) {
                None => r is None,
                Some(sc) => r matches Some(ls) && ls.tool@ == sc.0 && ls.command@ == sc.1
                    && ls.asset_id@ == arg_or(a.asset_id, ""@) && ls.intent@ == arg_or(
                    a.intent,
                    ""@,
                ),
            },
        },
{
    let a = match arguments {
        Some(a) => a,
        None => return None,
    };
    let t = chars_of(tool_name);
    let t = t.as_slice();
    if eq_str(t, "ssh_exec") {
        Some(scope_of(tool_name, arg_or_exec(&a.command, ""), a))
    } else if eq_str(t, "disk_usage") {
        Some(scope_of(tool_name, chars_of(CMD_DISK_USAGE), a))
    } else if eq_str(t, "system_status") {
        Some(scope_of(tool_name, chars_of(CMD_SYSTEM_STATUS), a))
    } else if eq_str(t, "service_status") {
        let svc = arg_or_exec(&a.service, "");
        let svc_s = string_of(svc.as_slice());
        let cmd = service_status_command(svc_s.as_str());
        Some(scope_of(tool_name, chars_of(cmd.as_str()), a))
    } else if eq_str(t, "sftp_remove") {
        Some(scope_of(tool_name, prefixed("remove ", arg_or_exec(&a.path, "")), a))
    } else if eq_str(t, "sftp_list") {
        Some(scope_of(tool_name, prefixed("list ", arg_or_exec(&a.path, ".")), a))
    } else if eq_str(t, "sftp_read_file") {
        Some(scope_of(tool_name, prefixed("read ", arg_or_exec(&a.path, "")), a))
    } else if eq_str(t, "sftp_write_file") {
        Some(scope_of(tool_name, prefixed("write ", arg_or_exec(&a.path, "")), a))
    } else if eq_str(t, "sftp_upload") {
        let mut v = prefixed("upload ", arg_or_exec(&a.local_path, ""));
        push_str(&mut v, " -> ");
        push_all(&mut v, arg_or_exec(&a.remote_path, "").as_slice());
        Some(scope_of(tool_name, v, a))
    } else if eq_str(t, "sftp_download") {
        let mut v = prefixed("download ", arg_or_exec(&a.remote_path, ""));
        push_str(&mut v, " -> ");
        push_all(&mut v, arg_or_exec(&a.local_path, "").as_slice());
        Some(scope_of(tool_name, v, a))
    } else if eq_str(t, "resource_monitor_snapshot") {
        Some(scope_of(tool_name, chars_of("snapshot"), a))
    } else {
        None
    }
}

// ─── approval policy ───

pub open spec fn remove_block_text(path: Seq<char>) -> Seq<char> {
    "拒绝执行：目标路径 '"@ + path + "' 属于系统根目录或顶级核心目录，禁止删除。"@
}

pub open spec fn remove_consequence(recursive: bool) -> Seq<char> {
    (if recursive {
        "【危险】将递归删除整个目录及其内部所有子文件与子目录！"@
    } else {
        "将删除远程单文件或空目录。"@
    }) + "此操作不可撤销。"@
}

pub open spec fn sensitive_read_consequence() -> Seq<char> {
    "检测到目标路径属于系统敏感文件、SSH 私钥或应用环境凭据，请核对是否授权读取。"@
}

pub open spec fn write_consequence() -> Seq<char> {
    "将向远程目标路径原子写入文件。若文件已存在将被完全覆盖，请核验路径与内容。"@
}

pub open spec fn upload_consequence() -> Seq<char> {
    "将上传本机文件并覆盖远程已有文件，请核对源路径与目标路径。"@
}

pub open spec fn download_block_text(local: Seq<char>) -> Seq<char> {
    "拒绝执行：本机下载路径 '"@ + local + "' 属于系统受保护核心目录。"@
}

pub open spec fn download_consequence(probe: LocalProbe) -> Seq<char> {
    if probe == LocalProbe::NotFound {
        "将在本机保存远程下载的文件。"@
    } else {
        "【注意】本机目标文件已存在，下载将覆盖本机旧文件！"@
    }
}

/// The decision is `Minimal` → run (logged `minimal_allowed`), `Strict` → ask
/// with exactly this intent, command and consequence.
pub open spec fn leveled(
    level: McpInterceptLevel,
    d: ApprovalDecision,
    intent: Seq<char>,
    command: Seq<char>,
    consequence: Seq<char>,
) -> bool {
    match level {
        McpInterceptLevel::Minimal => d == ApprovalDecision::AutoExecute(
            AutoApproveReason::MinimalFallback,
        ),
        McpInterceptLevel::Strict => d matches ApprovalDecision::RequestElicitation(info)
            && info.intent@ == intent && info.command@ == command && info.consequence@
            == consequence,
    }
}

/// The decision `check_approval_needed` owes.
pub open spec fn approval_ok(
    tool: Seq<char>,
    arguments: Option<ToolArgs>,
    level: McpInterceptLevel,
    class: CommandClass,
    local: LocalTarget,
    r: Option<ApprovalDecision>,
) -> bool {
    match arguments {
        None => r is None,
        Some(a) => {
            let intent = arg_or(a.intent, ""@);
            if tool == "ssh_exec"@ {
                let command = arg_or(a.command, ""@);
                if command.len() == 0 {
                    r is None
                } else {
                    r matches Some(d) && evaluation_ok(
                        command,
                        intent,
                        class.catastrophic,
                        class.risk,
                        level,
                        d,
                    )
                }
            } else if tool == "sftp_remove"@ {
                let path = arg_or(a.path, ""@);
                let recursive = match a.recursive {
                    Some(b) => b,
                    None => false,
                };
                if catastrophic_removal(path) {
                    r matches Some(ApprovalDecision::HardBlock { reason }) && reason@
                        == remove_block_text(path)
                } else {
                    r matches Some(d) && leveled(
                        level,
                        d,
                        intent,
                        "sftp_remove path="@ + path + " recursive="@ + bool_text(recursive),
                        remove_consequence(recursive),
                    )
                }
            } else if tool == "sftp_read_file"@ {
                let path = arg_or(a.path, ""@);
                if sensitive(path) {
                    r matches Some(ApprovalDecision::RequestElicitation(info)) && info.intent@
                        == arg_or(a.intent, "读取敏感系统凭据/配置"@) && info.command@
                        == "sftp_read_file path="@ + path && info.consequence@
                        == sensitive_read_consequence()
                } else {
                    r == Some(ApprovalDecision::AutoExecute(AutoApproveReason::Whitelist))
                }
            } else if tool == "sftp_write_file"@ {
                r matches Some(d) && leveled(
                    level,
                    d,
                    intent,
                    "sftp_write_file path="@ + arg_or(a.path, ""@),
                    write_consequence(),
                )
            } else if tool == "sftp_upload"@ {
                r matches Some(d) && leveled(
                    level,
                    d,
                    intent,
                    "sftp_upload "@ + arg_or(a.local_path, ""@) + " -> "@ + arg_or(
                        a.remote_path,
                        ""@,
                    ),
                    upload_consequence(),
                )
            } else if tool == "sftp_download"@ {
                let localp = arg_or(a.local_path, ""@);
                if local.protected {
                    r matches Some(ApprovalDecision::HardBlock { reason }) && reason@
                        == download_block_text(localp)
                } else {
                    r matches Some(d) && leveled(
                        level,
                        d,
                        intent,
                        "sftp_download "@ + arg_or(a.remote_path, ""@) + " -> "@ + localp,
                        download_consequence(local.probe),
                    )
                }
            } else {
                r is None
            }
        },
    }
}

fn lit(s: &str) -> (r: String)
    ensures
        r@ == s@,
{
    string_of(chars_of(s).as_slice())
}

fn leveled_exec(level: McpInterceptLevel, intent: Vec<char>, command: Vec<char>, consequence: Vec<
    char,
>) -> (d: ApprovalDecision)
    ensures
        leveled(level, d, intent@, command@, consequence@),
{
    match level {
        McpInterceptLevel::Minimal => ApprovalDecision::AutoExecute(
            AutoApproveReason::MinimalFallback,
        ),
        McpInterceptLevel::Strict => ApprovalDecision::RequestElicitation(
            ElicitationInfo {
                intent: string_of(intent.as_slice()),
                command: string_of(command.as_slice()),
                consequence: string_of(consequence.as_slice()),
            },
        ),
    }
}

/// Approval of a tool call. `None`: the tool needs no approval. `class` is the
/// classifier's verdict on the `ssh_exec` command and `local` what is known of
/// an `sftp_download` target; other tools ignore them.
pub fn check_approval_needed(
    tool_name: &str,
    arguments: Option<ToolArgs>,
    level: McpInterceptLevel,
    class: CommandClass,
    local: LocalTarget,
) -> (r: Option<ApprovalDecision>)
    ensures
        approval_ok(tool_name@, arguments, level, class, local, r),
{
    let a = match arguments {
        Some(a) => a,
        None => return None,
    };
    let t = chars_of(tool_name);
    let t = t.as_slice();
    let intent = arg_or_exec(&a.intent, "");
    if eq_str(t, "ssh_exec") {
        let command = arg_or_exec(&a.command, "");
        if command.len() == 0 {
            return None;
        }
        let cs = string_of(command.as_slice());
        let is = string_of(intent.as_slice());
        Some(evaluate(cs.as_str(), is.as_str(), class.catastrophic, class.risk, level))
    } else if eq_str(t, "sftp_remove") {
        let path = arg_or_exec(&a.path, "");
        let ps = string_of(path.as_slice());
        if is_catastrophic_remote_removal(ps.as_str()) {
            let mut v = chars_of("拒绝执行：目标路径 '");
            push_all(&mut v, path.as_slice());
            push_str(&mut v, "' 属于系统根目录或顶级核心目录，禁止删除。");
            return Some(ApprovalDecision::HardBlock { reason: string_of(v.as_slice()) });
        }
        let recursive = match a.recursive {
            Some(b) => b,
            None => false,
        };
        let mut cmd = chars_of("sftp_remove path=");
        push_all(&mut cmd, path.as_slice());
        push_str(&mut cmd, " recursive=");
        push_str(&mut cmd, if recursive { "true" } else { "false" });
        let mut cons = if recursive {
            chars_of("【危险】将递归删除整个目录及其内部所有子文件与子目录！")
        } else {
            chars_of("将删除远程单文件或空目录。")
        };
        push_str(&mut cons, "此操作不可撤销。");
        Some(leveled_exec(level, intent, cmd, cons))
    } else if eq_str(t, "sftp_read_file") {
        let path = arg_or_exec(&a.path, "");
        let ps = string_of(path.as_slice());
        if is_sensitive_remote_path(ps.as_str()) {
            let mut cmd = chars_of("sftp_read_file path=");
            push_all(&mut cmd, path.as_slice());
            Some(
                ApprovalDecision::RequestElicitation(
                    ElicitationInfo {
                        intent: string_of(arg_or_exec(&a.intent, "读取敏感系统凭据/配置").as_slice()),
                        command: string_of(cmd.as_slice()),
                        consequence: lit(
                            "检测到目标路径属于系统敏感文件、SSH 私钥或应用环境凭据，请核对是否授权读取。",
                        ),
                    },
                ),
            )
        } else {
            Some(ApprovalDecision::AutoExecute(AutoApproveReason::Whitelist))
        }
    } else if eq_str(t, "sftp_write_file") {
        let mut cmd = chars_of("sftp_write_file path=");
        push_all(&mut cmd, arg_or_exec(&a.path, "").as_slice());
        Some(
            leveled_exec(
                level,
                intent,
                cmd,
                chars_of("将向远程目标路径原子写入文件。若文件已存在将被完全覆盖，请核验路径与内容。"),
            ),
        )
    } else if eq_str(t, "sftp_upload") {
        let mut cmd = chars_of("sftp_upload ");
        push_all(&mut cmd, arg_or_exec(&a.local_path, "").as_slice());
        push_str(&mut cmd, " -> ");
        push_all(&mut cmd, arg_or_exec(&a.remote_path, "").as_slice());
        Some(
            leveled_exec(
                level,
                intent,
                cmd,
                chars_of("将上传本机文件并覆盖远程已有文件，请核对源路径与目标路径。"),
            ),
        )
    } else if eq_str(t, "sftp_download") {
        let localp = arg_or_exec(&a.local_path, "");
        if local.protected {
            let mut v = chars_of("拒绝执行：本机下载路径 '");
            push_all(&mut v, localp.as_slice());
            push_str(&mut v, "' 属于系统受保护核心目录。");
            return Some(ApprovalDecision::HardBlock { reason: string_of(v.as_slice()) });
        }
        let mut cmd = chars_of("sftp_download ");
        push_all(&mut cmd, arg_or_exec(&a.remote_path, "").as_slice());
        push_str(&mut cmd, " -> ");
        push_all(&mut cmd, localp.as_slice());
        let cons = match local.probe {
            LocalProbe::NotFound => chars_of("将在本机保存远程下载的文件。"),
            _ => chars_of("【注意】本机目标文件已存在，下载将覆盖本机旧文件！"),
        };
        Some(leveled_exec(level, intent, cmd, cons))
    } else {
        None
    }
}

// ─── decision → execution-log values ───

/// Where the user confirmed or declined.
#[derive(Debug, Clone, Copy, PartialEq, Eq, Structural)]
pub enum ApprovalVia {
    Elicitation,
    Gui,
}

impl ApprovalVia {
    /// The execution-log decision for an acceptance through this channel.
    pub fn accepted_decision(&self) -> (r: &'static str)
        ensures
            r@ == (if *self == ApprovalVia::Elicitation {
                "elicitation_accepted"@
            } else {
                "gui_accepted"@
            }),
    {
        match self {
            ApprovalVia::Elicitation => "elicitation_accepted",
            ApprovalVia::Gui => "gui_accepted",
        }
    }

    /// The execution-log decision for a refusal through this channel.
    pub fn declined_decision(&self) -> (r: &'static str)
        ensures
            r@ == (if *self == ApprovalVia::Elicitation {
                "elicitation_declined"@
            } else {
                "gui_declined"@
            }),
    {
        match self {
            ApprovalVia::Elicitation => "elicitation_declined",
            ApprovalVia::Gui => "gui_declined",
        }
    }
}

// ─── the call flow ───

/// How the confirmation ended.
pub enum ElicitOutcome {
    Accepted { via: ApprovalVia },
    /// Refused; `reason` is the error text for the caller.
    Declined { via: ApprovalVia, reason: String },
    /// The GUI dialog went unanswered for 60 s.
    Timeout,
    /// No confirmation channel (fail-secure refusal); the text for the caller.
    NotSupported(String),
}

/// What happens to a call once its approval is known.
pub enum CallPlan {
    /// Run it; `decision` goes to the execution log.
    Proceed { decision: &'static str },
    /// Do not run it: log `decision` with outcome `skipped` and answer
    /// `message` as an error.
    Refuse { decision: &'static str, message: String },
    /// Ask the user first.
    Confirm(ElicitationInfo),
}

/// The plan for an approval decision (`None`: no approval needed).
pub fn plan_after_approval(approval: Option<ApprovalDecision>) -> (p: CallPlan)
    ensures
        match approval {
            None => p matches CallPlan::Proceed { decision } && decision@ == "not_required"@,
            Some(ApprovalDecision::AutoExecute(AutoApproveReason::Whitelist)) => p matches CallPlan::Proceed {
                decision,
            } && decision@ == "auto_approved"@,
            Some(ApprovalDecision::AutoExecute(AutoApproveReason::MinimalFallback)) => p matches CallPlan::Proceed {
                decision,
            } && decision@ == "minimal_allowed"@,
            Some(ApprovalDecision::HardBlock { reason }) => p matches CallPlan::Refuse {
                decision,
                message,
            } && decision@ == "hard_blocked"@ && message@ == reason@,
            Some(ApprovalDecision::RequestElicitation(info)) => p matches CallPlan::Confirm(i)
                && i == info,
        },
{
    match approval {
        None => CallPlan::Proceed { decision: NOT_REQUIRED },
        Some(ApprovalDecision::AutoExecute(AutoApproveReason::Whitelist)) => CallPlan::Proceed {
            decision: AUTO_APPROVED,
        },
        Some(ApprovalDecision::AutoExecute(AutoApproveReason::MinimalFallback)) => CallPlan::Proceed {
            decision: MINIMAL_ALLOWED,
        },
        Some(ApprovalDecision::HardBlock { reason }) => CallPlan::Refuse {
            decision: HARD_BLOCKED,
            message: reason,
        },
        Some(ApprovalDecision::RequestElicitation(info)) => CallPlan::Confirm(info),
    }
}

pub open spec fn gui_timeout_text() -> Seq<char> {
    "GUI 审批超时（60s 未响应），已拒绝执行"@
}

/// The plan once the confirmation ended: run only when the user accepted.
pub fn plan_after_confirmation(outcome: ElicitOutcome) -> (p: CallPlan)
    ensures
        match outcome {
            ElicitOutcome::Accepted { via } => p matches CallPlan::Proceed { decision }
                && decision@ == (if via == ApprovalVia::Elicitation {
                "elicitation_accepted"@
            } else {
                "gui_accepted"@
            }),
            ElicitOutcome::Declined { via, reason } => p matches CallPlan::Refuse {
                decision,
                message,
            } && message@ == reason@ && decision@ == (if via == ApprovalVia::Elicitation {
                "elicitation_declined"@
            } else {
                "gui_declined"@
            }),
            ElicitOutcome::Timeout => p matches CallPlan::Refuse { decision, message }
                && decision@ == "timeout"@ && message@ == gui_timeout_text(),
            ElicitOutcome::NotSupported(reason) => p matches CallPlan::Refuse {
                decision,
                message,
            } && decision@ == "rejected"@ && message@ == reason@,
        },
{
    match outcome {
        ElicitOutcome::Accepted { via } => CallPlan::Proceed { decision: via.accepted_decision() },
        ElicitOutcome::Declined { via, reason } => CallPlan::Refuse {
            decision: via.declined_decision(),
            message: reason,
        },
        ElicitOutcome::Timeout => CallPlan::Refuse {
            decision: TIMEOUT,
            message: "GUI 审批超时（60s 未响应），已拒绝执行".to_owned(),
        },
        ElicitOutcome::NotSupported(reason) => CallPlan::Refuse { decision: REJECTED, message: reason },
    }
}

/// What the client's elicitation dialog answered.
pub enum ElicitReply {
    /// The form came back with `confirmed`.
    Form(bool),
    /// No content.
    Empty,
    /// The client declined, cancelled, does not support it, or failed.
    Failed,
}

pub open spec fn form_declined_text() -> Seq<char> {
    "用户在确认框中选择了不执行"@
}

pub open spec fn no_answer_text() -> Seq<char> {
    "用户未提供确认"@
}

/// The outcome of the client's dialog; `None` means falling back to the GUI
/// dialog (a refusal may have been automatic, so the user gets a second,
/// real chance there).
pub fn elicit_outcome(reply: ElicitReply) -> (r: Option<ElicitOutcome>)
    ensures
        match reply {
            ElicitReply::Form(true) => r matches Some(ElicitOutcome::Accepted { via })
                && via == ApprovalVia::Elicitation,
            ElicitReply::Form(false) => r matches Some(ElicitOutcome::Declined { via, reason })
                && via == ApprovalVia::Elicitation && reason@ == form_declined_text(),
            ElicitReply::Empty => r matches Some(ElicitOutcome::Declined { via, reason }) && via
                == ApprovalVia::Elicitation && reason@ == no_answer_text(),
            ElicitReply::Failed => r is None,
        },
{
    match reply {
        ElicitReply::Form(confirmed) => if confirmed {
            Some(ElicitOutcome::Accepted { via: ApprovalVia::Elicitation })
        } else {
            Some(
                ElicitOutcome::Declined {
                    via: ApprovalVia::Elicitation,
                    reason: "用户在确认框中选择了不执行".to_owned(),
                },
            )
        },
        ElicitReply::Empty => Some(
            ElicitOutcome::Declined {
                via: ApprovalVia::Elicitation,
                reason: "用户未提供确认".to_owned(),
            },
        ),
        ElicitReply::Failed => None,
    }
}

/// How the GUI dialog ended.
pub enum GuiReply {
    /// No GUI, or the dialog could not be shown.
    Unavailable,
    /// The user answered.
    Answer(bool),
    /// The answer channel closed without an answer.
    ChannelClosed,
    /// No answer within 60 s.
    TimedOut,
}

pub open spec fn gui_declined_text() -> Seq<char> {
    "用户在 GUI 弹窗中拒绝"@
}

pub open spec fn gui_channel_closed_text() -> Seq<char> {
    "GUI 审批通道异常关闭"@
}

/// The outcome of the GUI fallback: without a GUI the call is refused with
/// the three-part refusal text.
pub fn gui_outcome(reply: GuiReply, info: &ElicitationInfo) -> (r: ElicitOutcome)
    ensures
        match reply {
            GuiReply::Unavailable => r matches ElicitOutcome::NotSupported(m) && m@
                == crate::approval::rejection_text(info.intent@, info.command@, info.consequence@),
            GuiReply::Answer(true) => r matches ElicitOutcome::Accepted { via } && via
                == ApprovalVia::Gui,
            GuiReply::Answer(false) => r matches ElicitOutcome::Declined { via, reason } && via
                == ApprovalVia::Gui && reason@ == gui_declined_text(),
            GuiReply::ChannelClosed => r matches ElicitOutcome::NotSupported(m) && m@
                == gui_channel_closed_text(),
            GuiReply::TimedOut => r is Timeout,
        },
{
    match reply {
        GuiReply::Unavailable => ElicitOutcome::NotSupported(info.to_rejection()),
        GuiReply::Answer(accepted) => if accepted {
            ElicitOutcome::Accepted { via: ApprovalVia::Gui }
        } else {
            ElicitOutcome::Declined { via: ApprovalVia::Gui, reason: "用户在 GUI 弹窗中拒绝".to_owned() }
        },
        GuiReply::ChannelClosed => ElicitOutcome::NotSupported("GUI 审批通道异常关闭".to_owned()),
        GuiReply::TimedOut => ElicitOutcome::Timeout,
    }
}

/// Law: a call that needs confirmation runs only after an explicit yes: every
/// other end of the confirmation refuses it.
pub proof fn lemma_runs_only_when_accepted(outcome: ElicitOutcome, p: CallPlan)
    requires
        match outcome {
            ElicitOutcome::Accepted { via } => p matches CallPlan::Proceed { decision }
                && decision@ == (if via == ApprovalVia::Elicitation {
                "elicitation_accepted"@
            } else {
                "gui_accepted"@
            }),
            ElicitOutcome::Declined { via, reason } => p matches CallPlan::Refuse {
                decision,
                message,
            } && message@ == reason@ && decision@ == (if via == ApprovalVia::Elicitation {
                "elicitation_declined"@
            } else {
                "gui_declined"@
            }),
            ElicitOutcome::Timeout => p matches CallPlan::Refuse { decision, message }
                && decision@ == "timeout"@ && message@ == gui_timeout_text(),
            ElicitOutcome::NotSupported(reason) => p matches CallPlan::Refuse {
                decision,
                message,
            } && decision@ == "rejected"@ && message@ == reason@,
        },
    ensures
        (p is Proceed) <==> (outcome is Accepted),
        !(p is Confirm),
{
}

/// Law (constant exceptions precede the level): whatever the level, removing
/// the root or a top-level system directory is refused and reading a
/// credential file needs the user's confirmation.
pub proof fn lemma_constant_exceptions(
    arguments: ToolArgs,
    level: McpInterceptLevel,
    class: CommandClass,
    local: LocalTarget,
    r_remove: Option<ApprovalDecision>,
    r_read: Option<ApprovalDecision>,
)
    requires
        approval_ok("sftp_remove"@, Some(arguments), level, class, local, r_remove),
        approval_ok("sftp_read_file"@, Some(arguments), level, class, local, r_read),
    ensures
        catastrophic_removal(arg_or(arguments.path, ""@)) ==> (r_remove matches Some(
            ApprovalDecision::HardBlock { .. },
        )),
        sensitive(arg_or(arguments.path, ""@)) ==> (r_read matches Some(
            ApprovalDecision::RequestElicitation(_),
        )),
{
    reveal_strlit("sftp_remove");
    reveal_strlit("sftp_read_file");
    reveal_strlit("ssh_exec");
    assert("sftp_remove"@.len() != "ssh_exec"@.len());
    assert("sftp_read_file"@.len() != "ssh_exec"@.len());
    assert("sftp_read_file"@.len() != "sftp_remove"@.len());
}

} // verus!
