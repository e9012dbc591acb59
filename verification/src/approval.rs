//! Approval of MCP tool calls (the three-part confirmation and its decisions).
//!
//! Layering (both interception levels):
//! - catastrophic commands → `HardBlock` (never enters the approval chain);
//! - read-only whitelist → `AutoExecute(Whitelist)`;
//! - unknown / yellow-list / non-catastrophic blacklist → `Minimal` runs the
//!   command (logged as `minimal_allowed`), `Strict` asks the user.
use vstd::prelude::*;

use crate::config::McpInterceptLevel;
use crate::text::{chars_of, has_infix, push_str, string_of, contains_str};

verus! {

/// Why a command was allowed without asking.
#[derive(Debug, Clone, Copy, PartialEq, Eq, Structural)]
pub enum AutoApproveReason {
    /// The read-only whitelist matched (logged `auto_approved`).
    Whitelist,
    /// `Minimal` let an unknown / yellow-list / non-catastrophic command run
    /// (logged `minimal_allowed`).
    MinimalFallback,
}

/// The three-part confirmation: declared intent, real command, predicted consequence.
pub struct ElicitationInfo {
    pub intent: String,
    pub command: String,
    pub consequence: String,
}

/// The approval decision for one call.
pub enum ApprovalDecision {
    AutoExecute(AutoApproveReason),
    /// Refused outright; `reason` is the full refusal text for the caller.
    HardBlock { reason: String },
    /// The user must confirm.
    RequestElicitation(ElicitationInfo),
}

/// A dangerous pattern that matched a command (its source text).
pub struct DangerousMatch {
    pub pattern: String,
}

/// How the command classifier judged a command.
pub enum CommandRisk {
    /// On the whitelist.
    Safe,
    /// On the yellow list.
    Allowed,
    /// Matched a (non-catastrophic) dangerous pattern.
    Dangerous(DangerousMatch),
    /// None of the lists.
    Unknown,
}

pub open spec fn undeclared_intent() -> Seq<char> {
    "(AI 未声明意图)"@
}

pub open spec fn intent_display(intent: Seq<char>) -> Seq<char> {
    if intent.len() == 0 {
        undeclared_intent()
    } else {
        intent
    }
}

/// The confirmation dialog text.
pub open spec fn message_text(intent: Seq<char>, command: Seq<char>, consequence: Seq<char>) -> Seq<
    char,
> {
    "⚠️ 高危操作审批\n\n【AI 声明意图】"@ + intent_display(intent) + "\n\n【真实命令】"@ + command
        + "\n\n【后果预测】"@ + consequence + "\n\n确认要执行此操作吗？"@
}

/// The refusal text when no approval channel is available.
pub open spec fn rejection_text(intent: Seq<char>, command: Seq<char>, consequence: Seq<char>) -> Seq<
    char,
> {
    "【高危操作已被拒绝】当前客户端不支持 MCP elicitation 确认框，无法完成安全审批。\n\n【AI 声明意图】"@
        + intent_display(intent) + "\n\n【真实命令】"@ + command + "\n\n【后果预测】"@ + consequence
        + "\n\n如确需执行此高危操作，请改用支持 elicitation 的客户端，或在 myshelltool GUI 中手动执行。只读命令（df/uptime/systemctl status 等）不受此限制。"@
}

/// The refusal text for a catastrophic command.
pub open spec fn hard_block_text(command: Seq<char>, consequence: Seq<char>) -> Seq<char> {
    "【命令已被拦截】毁灭性命令，未执行。\n\n【真实命令】"@ + command + "\n\n【后果预测】"@
        + consequence
        + "\n\n说明：毁灭性操作在任何拦截等级下均直接拒绝，不提供审批通道；检索/查看含此类关键词的文档或日志的命令同样会被拦截。\n\n如确需执行，请在 myshelltool GUI 终端手动执行；被误拦的检索类命令可改由 AI 读取文件内容（cat / grep 等）自行判断。"@
}

/// The fixed consequence text for a matched pattern.
pub open spec fn consequence_for(p: Seq<char>) -> Seq<char> {
    if has_infix(p, "\\brm"@) {
        "将递归强制删除文件系统根/家/当前目录，系统即刻报废，数据不可恢复。"@
    } else if has_infix(p, "rm\\s+"@) {
        "将递归强制删除文件或目录，且不可恢复。"@
    } else if has_infix(p, "mkfs"@) {
        "将格式化文件系统，磁盘上所有数据将被彻底销毁。"@
    } else if has_infix(p, "dd"@) && has_infix(p, "/dev/"@) {
        "将向块设备直接写入数据，可能永久破坏磁盘分区与数据。"@
    } else if has_infix(p, "\\(\\)"@) || has_infix(p, ":\\(\\)"@) {
        "Fork 炸弹：将瞬间耗尽系统进程资源，导致系统完全无响应。"@
    } else if has_infix(p, "/dev/sd"@) {
        "将数据重定向写入块设备，可能覆盖并破坏磁盘。"@
    } else if has_infix(p, "shutdown"@) {
        "将关闭服务器。"@
    } else if has_infix(p, "reboot"@) {
        "将重启服务器，正在运行的进程会被中断。"@
    } else if has_infix(p, "halt"@) {
        "将停机（halt）。"@
    } else if has_infix(p, "poweroff"@) {
        "将关机（poweroff）。"@
    } else if has_infix(p, "init\\s+0"@) {
        "将切换到运行级别 0（关机）。"@
    } else if has_infix(p, "chmod"@) {
        "将递归修改文件/目录权限，可能导致系统服务因权限错误而无法启动。"@
    } else if has_infix(p, "chown"@) {
        "将递归修改文件/目录属主，可能导致服务因属主错误而异常。"@
    } else if has_infix(p, "iptables"@) {
        "将清空防火墙规则（iptables -F），可能暴露服务端口或切断现有连接。"@
    } else if has_infix(p, "curl"@) || has_infix(p, "wget"@) {
        "将从网络下载脚本并直接用 shell 执行，存在执行恶意代码的高风险。"@
    } else {
        "此命令被判定为危险操作。"@
    }
}

pub open spec fn unknown_consequence() -> Seq<char> {
    "此命令不在已知安全名单内，需要用户确认。"@
}

fn push_intent(v: &mut Vec<char>, intent: &str)
    ensures
        final(v)@ == old(v)@ + intent_display(intent@),
{
    let ic = chars_of(intent);
    if ic.len() == 0 {
        push_str(v, "(AI 未声明意图)");
    } else {
        crate::text::push_all(v, ic.as_slice());
    }
}

impl ElicitationInfo {
    /// The confirmation dialog text (intent, real command, consequence).
    pub fn to_message(&self) -> (r: String)
        ensures
            r@ == message_text(self.intent@, self.command@, self.consequence@),
    {
        let mut v = chars_of("⚠️ 高危操作审批\n\n【AI 声明意图】");
        push_intent(&mut v, self.intent.as_str());
        push_str(&mut v, "\n\n【真实命令】");
        push_str(&mut v, self.command.as_str());
        push_str(&mut v, "\n\n【后果预测】");
        push_str(&mut v, self.consequence.as_str());
        push_str(&mut v, "\n\n确认要执行此操作吗？");
        string_of(v.as_slice())
    }

    /// The fail-secure refusal used when no approval channel is available.
    pub fn to_rejection(&self) -> (r: String)
        ensures
            r@ == rejection_text(self.intent@, self.command@, self.consequence@),
    {
        format_rejection(self.intent.as_str(), self.command.as_str(), self.consequence.as_str())
    }
}

/// The three-part refusal text (intent, real command, consequence).
pub fn format_rejection(intent: &str, command: &str, consequence: &str) -> (r: String)
    ensures
        r@ == rejection_text(intent@, command@, consequence@),
{
    let mut v = chars_of(
        "【高危操作已被拒绝】当前客户端不支持 MCP elicitation 确认框，无法完成安全审批。\n\n【AI 声明意图】",
    );
    push_intent(&mut v, intent);
    push_str(&mut v, "\n\n【真实命令】");
    push_str(&mut v, command);
    push_str(&mut v, "\n\n【后果预测】");
    push_str(&mut v, consequence);
    push_str(
        &mut v,
        "\n\n如确需执行此高危操作，请改用支持 elicitation 的客户端，或在 myshelltool GUI 中手动执行。只读命令（df/uptime/systemctl status 等）不受此限制。",
    );
    string_of(v.as_slice())
}

/// The refusal text for a catastrophic command (no approval channel is offered).
pub fn format_hard_block_rejection(command: &str, consequence: &str) -> (r: String)
    ensures
        r@ == hard_block_text(command@, consequence@),
{
    let mut v = chars_of("【命令已被拦截】毁灭性命令，未执行。\n\n【真实命令】");
    push_str(&mut v, command);
    push_str(&mut v, "\n\n【后果预测】");
    push_str(&mut v, consequence);
    push_str(
        &mut v,
        "\n\n说明：毁灭性操作在任何拦截等级下均直接拒绝，不提供审批通道；检索/查看含此类关键词的文档或日志的命令同样会被拦截。\n\n如确需执行，请在 myshelltool GUI 终端手动执行；被误拦的检索类命令可改由 AI 读取文件内容（cat / grep 等）自行判断。",
    );
    string_of(v.as_slice())
}

fn lit(s: &str) -> (r: String)
    ensures
        r@ == s@,
{
    string_of(chars_of(s).as_slice())
}

/// The fixed consequence text for the pattern that matched.
pub fn predict_consequence(m: &DangerousMatch) -> (r: String)
    ensures
        r@ == consequence_for(m.pattern@),
{
    let pc = chars_of(m.pattern.as_str());
    let p = pc.as_slice();
    if contains_str(p, "\\brm") {
        lit("将递归强制删除文件系统根/家/当前目录，系统即刻报废，数据不可恢复。")
    } else if contains_str(p, "rm\\s+") {
        lit("将递归强制删除文件或目录，且不可恢复。")
    } else if contains_str(p, "mkfs") {
        lit("将格式化文件系统，磁盘上所有数据将被彻底销毁。")
    } else if contains_str(p, "dd") && contains_str(p, "/dev/") {
        lit("将向块设备直接写入数据，可能永久破坏磁盘分区与数据。")
    } else if contains_str(p, "\\(\\)") || contains_str(p, ":\\(\\)") {
        lit("Fork 炸弹：将瞬间耗尽系统进程资源，导致系统完全无响应。")
    } else if contains_str(p, "/dev/sd") {
        lit("将数据重定向写入块设备，可能覆盖并破坏磁盘。")
    } else if contains_str(p, "shutdown") {
        lit("将关闭服务器。")
    } else if contains_str(p, "reboot") {
        lit("将重启服务器，正在运行的进程会被中断。")
    } else if contains_str(p, "halt") {
        lit("将停机（halt）。")
    } else if contains_str(p, "poweroff") {
        lit("将关机（poweroff）。")
    } else if contains_str(p, "init\\s+0") {
        lit("将切换到运行级别 0（关机）。")
    } else if contains_str(p, "chmod") {
        lit("将递归修改文件/目录权限，可能导致系统服务因权限错误而无法启动。")
    } else if contains_str(p, "chown") {
        lit("将递归修改文件/目录属主，可能导致服务因属主错误而异常。")
    } else if contains_str(p, "iptables") {
        lit("将清空防火墙规则（iptables -F），可能暴露服务端口或切断现有连接。")
    } else if contains_str(p, "curl") || contains_str(p, "wget") {
        lit("将从网络下载脚本并直接用 shell 执行，存在执行恶意代码的高风险。")
    } else {
        lit("此命令被判定为危险操作。")
    }
}

/// The decision `evaluate` owes for a classified command.
pub open spec fn evaluation_ok(
    command: Seq<char>,
    intent: Seq<char>,
    catastrophic: Option<DangerousMatch>,
    risk: CommandRisk,
    level: McpInterceptLevel,
    d: ApprovalDecision,
) -> bool {
    match catastrophic {
        Some(m) => d matches ApprovalDecision::HardBlock { reason } && reason@ == hard_block_text(
            command,
            consequence_for(m.pattern@),
        ),
        None => match risk {
            CommandRisk::Safe => d == ApprovalDecision::AutoExecute(AutoApproveReason::Whitelist),
            CommandRisk::Allowed | CommandRisk::Unknown => match level {
                McpInterceptLevel::Minimal => d == ApprovalDecision::AutoExecute(
                    AutoApproveReason::MinimalFallback,
                ),
                McpInterceptLevel::Strict => d matches ApprovalDecision::RequestElicitation(info)
                    && info.intent@ == intent && info.command@ == command && info.consequence@
                    == unknown_consequence(),
            },
            CommandRisk::Dangerous(m) => match level {
                McpInterceptLevel::Minimal => d == ApprovalDecision::AutoExecute(
                    AutoApproveReason::MinimalFallback,
                ),
                McpInterceptLevel::Strict => d matches ApprovalDecision::RequestElicitation(info)
                    && info.intent@ == intent && info.command@ == command && info.consequence@
                    == consequence_for(m.pattern@),
            },
        },
    }
}

/// Evaluates a shell command's approval from its classification:
/// `catastrophic` is the catastrophic-layer match (checked first, whatever the
/// level), `risk` the classifier's verdict for the rest.
pub fn evaluate(
    command: &str,
    intent: &str,
    catastrophic: Option<DangerousMatch>,
    risk: CommandRisk,
    level: McpInterceptLevel,
) -> (d: ApprovalDecision)
    ensures
        evaluation_ok(command@, intent@, catastrophic, risk, level, d),
        catastrophic is Some ==> d is HardBlock,
        level == McpInterceptLevel::Minimal ==> !(d is RequestElicitation),
        level == McpInterceptLevel::Strict ==> d != ApprovalDecision::AutoExecute(
            AutoApproveReason::MinimalFallback,
        ),
{
    if let Some(m) = catastrophic {
        let consequence = predict_consequence(&m);
        return ApprovalDecision::HardBlock {
            reason: format_hard_block_rejection(command, consequence.as_str()),
        };
    }
    match risk {
        CommandRisk::Safe => ApprovalDecision::AutoExecute(AutoApproveReason::Whitelist),
        CommandRisk::Allowed | CommandRisk::Unknown => match level {
            McpInterceptLevel::Minimal => ApprovalDecision::AutoExecute(
                AutoApproveReason::MinimalFallback,
            ),
            McpInterceptLevel::Strict => ApprovalDecision::RequestElicitation(
                ElicitationInfo {
                    intent: lit(intent),
                    command: lit(command),
                    consequence: lit("此命令不在已知安全名单内，需要用户确认。"),
                },
            ),
        },
        CommandRisk::Dangerous(m) => match level {
            McpInterceptLevel::Minimal => ApprovalDecision::AutoExecute(
                AutoApproveReason::MinimalFallback,
            ),
            McpInterceptLevel::Strict => ApprovalDecision::RequestElicitation(
                ElicitationInfo {
                    intent: lit(intent),
                    command: lit(command),
                    consequence: predict_consequence(&m),
                },
            ),
        },
    }
}

/// The read-only whitelist (command prefixes of the built-in read-only tools).
pub open spec fn readonly_whitelist_spec() -> Seq<Seq<char>> {
    seq![
        "df"@,
        "uptime"@,
        "free"@,
        "top"@,
        "systemctl status"@,
        "cat /proc"@,
        "cat /etc/os-release"@,
        "uname"@,
        "who"@,
        "w"@,
        "last"@,
        "netstat"@,
        "ss"@,
        "docker ps"@,
        "docker logs"@,
        "journalctl"@,
        "ps"@,
        "ls"@,
        "find"@,
        "head"@,
        "tail"@,
    ]
}

/// The read-only whitelist of command prefixes used by the built-in read-only tools.
pub fn readonly_whitelist() -> (r: Vec<&'static str>)
    ensures
        r@.map_values(|x: &str| x@) == readonly_whitelist_spec(),
{
    let v = vec![
        "df",
        "uptime",
        "free",
        "top",
        "systemctl status",
        "cat /proc",
        "cat /etc/os-release",
        "uname",
        "who",
        "w",
        "last",
        "netstat",
        "ss",
        "docker ps",
        "docker logs",
        "journalctl",
        "ps",
        "ls",
        "find",
        "head",
        "tail",
    ];
    assert(v@.map_values(|x: &str| x@) =~= readonly_whitelist_spec());
    v
}

} // verus!
