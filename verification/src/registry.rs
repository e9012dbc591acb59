//! The MCP tool registry: one declaration per tool (name, description, risk,
//! approval policy, scope it needs, whether calls are logged, approval texts,
//! long-running flag), in `tools/list` order. The runtime approval decision is
//! made per tool in `server`; the registry feeds the GUI capability list, the
//! protocol annotations and the execution-log fields.
use vstd::prelude::*;

use crate::approval::ElicitationInfo;
use crate::text::same_text;

verus! {

/// Risk class: hints for the protocol annotations and the GUI; no runtime decision.
#[derive(Debug, Clone, Copy, PartialEq, Eq, Structural)]
pub enum RiskClass {
    ReadOnly,
    Write,
    Destructive,
}

pub open spec fn gui_tag_text(r: RiskClass) -> Seq<char> {
    match r {
        RiskClass::ReadOnly => "readonly"@,
        _ => "dangerous"@,
    }
}

pub open spec fn risk_name(r: RiskClass) -> Seq<char> {
    match r {
        RiskClass::ReadOnly => "readonly"@,
        RiskClass::Write => "write"@,
        RiskClass::Destructive => "destructive"@,
    }
}

impl RiskClass {
    /// Tag in the GUI capability list: writes count as dangerous too.
    pub fn gui_tag(self) -> (r: &'static str)
        ensures
            r@ == gui_tag_text(self),
    {
        match self {
            RiskClass::ReadOnly => "readonly",
            RiskClass::Write => "dangerous",
            RiskClass::Destructive => "dangerous",
        }
    }

    /// The execution-log `risk` value.
    pub fn as_str(self) -> (r: &'static str)
        ensures
            r@ == risk_name(self),
    {
        match self {
            RiskClass::ReadOnly => "readonly",
            RiskClass::Write => "write",
            RiskClass::Destructive => "destructive",
        }
    }
}

/// Approval policy of a tool.
#[derive(Debug, Clone, Copy, PartialEq, Eq, Structural)]
pub enum Policy {
    /// No approval: local queries and read-only remote commands.
    NoApproval,
    /// `ssh_exec` and the other shell tools: classified command.
    ShellExec,
    /// Remote writes: run under `Minimal`, ask under `Strict`.
    RemoteWrite,
    /// `sftp_read_file`: credential paths always ask.
    RemoteReadSensitive,
    /// `sftp_remove`: root-level directories always refused.
    RemoteDelete,
    /// `sftp_download`: protected local directories always refused.
    LocalPathWrite,
}

pub open spec fn policy_name(p: Policy) -> Seq<char> {
    match p {
        Policy::NoApproval => "no_approval"@,
        Policy::ShellExec => "shell_exec"@,
        Policy::RemoteWrite => "remote_write"@,
        Policy::RemoteReadSensitive => "remote_read_sensitive"@,
        Policy::RemoteDelete => "remote_delete"@,
        Policy::LocalPathWrite => "local_path_write"@,
    }
}

impl Policy {
    /// The execution-log `policy` value.
    pub fn as_str(self) -> (r: &'static str)
        ensures
            r@ == policy_name(self),
    {
        match self {
            Policy::NoApproval => "no_approval",
            Policy::ShellExec => "shell_exec",
            Policy::RemoteWrite => "remote_write",
            Policy::RemoteReadSensitive => "remote_read_sensitive",
            Policy::RemoteDelete => "remote_delete",
            Policy::LocalPathWrite => "local_path_write",
        }
    }
}

/// What a tool needs to be allowed to touch.
#[derive(Debug, Clone, Copy, PartialEq, Eq, Structural)]
pub enum ScopeReq {
    /// A local query; no asset.
    NoAsset,
    /// The target asset.
    Asset,
    /// The target asset and the local file system.
    AssetAndLocalFs,
}

/// Approval texts of a tool: the intent used when the call declares none.
#[derive(Debug, Clone, Copy)]
pub struct ApprovalSpec {
    pub intent_default: Option<&'static str>,
}

/// The declaration of one tool.
#[derive(Debug, Clone, Copy)]
pub struct ToolSpec {
    pub name: &'static str,
    pub description: &'static str,
    pub risk: RiskClass,
    pub policy: Policy,
    pub scope_req: ScopeReq,
    /// Calls are written to the execution log.
    pub audited: bool,
    /// Approval texts, for the policies that may ask.
    pub approval: Option<ApprovalSpec>,
    /// Announced to hosts as supporting protocol tasks.
    pub long_running: bool,
}

/// The registry, in `tools/list` order.
pub open spec fn registry_spec() -> Seq<ToolSpec> {
    seq![
        ToolSpec {
            name: "list_assets",
            description: "列出所有已配置的 SSH 连接资产（不含密码/凭据，仅元数据：name/host/port/username/group/status）",
            risk: RiskClass::ReadOnly,
            policy: Policy::NoApproval,
            scope_req: ScopeReq::NoAsset,
            audited: false,
            approval: None,
            long_running: false,
        },
        ToolSpec {
            name: "list_sessions",
            description: "列出当前客户端活跃的 SSH 会话清单（session_id 列表）。",
            risk: RiskClass::ReadOnly,
            policy: Policy::NoApproval,
            scope_req: ScopeReq::NoAsset,
            audited: false,
            approval: None,
            long_running: false,
        },
        ToolSpec {
            name: "disk_usage",
            description: "查询指定资产的磁盘使用情况（执行 df -h）。stdout 含 rc_df=N 行标注 df 的真实退出码（复合命令回声，勿只看首行 exit_code）",
            risk: RiskClass::ReadOnly,
            policy: Policy::NoApproval,
            scope_req: ScopeReq::Asset,
            audited: true,
            approval: None,
            long_running: false,
        },
        ToolSpec {
            name: "system_status",
            description: "查询指定资产的系统状态：uptime / 内存 / 负载 / top 进程。仅支持 Linux（依赖 /proc、procps 与 systemd）主机，其他平台命令会失败。stdout 含 rc_uptime/rc_free/rc_top=N 行标注各子段真实退出码（勿只看首行 exit_code，它只反映最后的 echo）；rc_top 由「先落临时文件再 head」取得，可信——top 不存在（slim 容器）时 rc_top≠0 且 stderr 带 not found",
            risk: RiskClass::ReadOnly,
            policy: Policy::NoApproval,
            scope_req: ScopeReq::Asset,
            audited: true,
            approval: None,
            long_running: false,
        },
        ToolSpec {
            name: "service_status",
            description: "查询指定资产上某 systemd 服务的状态（systemctl status <service>）。仅支持 Linux（依赖 /proc 与 systemd）主机，其他平台命令会失败。stdout 含 rc_systemctl=N 行标注真实退出码",
            risk: RiskClass::ReadOnly,
            policy: Policy::NoApproval,
            scope_req: ScopeReq::Asset,
            audited: true,
            approval: None,
            long_running: false,
        },
        ToolSpec {
            name: "resource_monitor_snapshot",
            description: "获取指定资产的资源监控快照（CPU负载、内存占用、磁盘空间概览）。仅支持 Linux（依赖 /proc 与 systemd）主机，其他平台命令会失败。stdout 含 rc_uptime/rc_free/rc_df=N 行标注各子命令真实退出码",
            risk: RiskClass::ReadOnly,
            policy: Policy::NoApproval,
            scope_req: ScopeReq::Asset,
            audited: true,
            approval: None,
            long_running: false,
        },
        ToolSpec {
            name: "ssh_exec",
            description: "在指定资产上执行任意 Shell 命令。返回结构化文本：首行 exit_code=<n>（无退出码时 exit_code=unknown），随后为 stdout（无输出时给出提示），stderr 非空时以 --- stderr --- 分隔行附后，超长自动头尾截断。拦截语义：毁灭性命令（mkfs/dd 写块设备/rm 根级删除等）直接拒绝；其余按当前拦截等级放行或需确认（等级可在 myshelltool GUI 的 MCP 面板调整）。调用时必须如实声明 intent 意图。",
            risk: RiskClass::Destructive,
            policy: Policy::ShellExec,
            scope_req: ScopeReq::Asset,
            audited: true,
            approval: None,
            long_running: false,
        },
        ToolSpec {
            name: "exec_many",
            description: "在多台资产上执行同一 Shell 命令（批量 fan-out，单次上限 64 台，并发 8 台排队）。逐目标返回结构化结果（exitCode/output/truncated/sessionSource）；单目标失败不影响其余；范围外目标记 denied。审批按命令文本一次判定放行整批。调用时必须如实声明 intent 意图。",
            risk: RiskClass::Destructive,
            policy: Policy::ShellExec,
            scope_req: ScopeReq::Asset,
            audited: true,
            approval: None,
            long_running: false,
        },
        ToolSpec {
            name: "ssh_exec_async",
            description: "在指定资产上后台执行长时 Shell 命令（apt upgrade / mysqldump / rsync 等超过工具超时的命令），立即返回 job_id。用 job_status 轮询状态、job_output 分页读输出、job_cancel 取消（断开连接，远端命令收 SIGHUP）。job TTL 30 分钟，内存态不落盘。调用时必须如实声明 intent 意图。",
            risk: RiskClass::Destructive,
            policy: Policy::ShellExec,
            scope_req: ScopeReq::Asset,
            audited: true,
            approval: None,
            long_running: true,
        },
        ToolSpec {
            name: "job_status",
            description: "查询长任务状态（running/done/failed/cancelled + 退出码 + 输出字节数）。",
            risk: RiskClass::ReadOnly,
            policy: Policy::NoApproval,
            scope_req: ScopeReq::NoAsset,
            audited: false,
            approval: None,
            long_running: false,
        },
        ToolSpec {
            name: "job_output",
            description: "分页读取长任务输出（offset/limit，单页上限 1MiB；响应带总字节数与 EOF 标记）。",
            risk: RiskClass::ReadOnly,
            policy: Policy::NoApproval,
            scope_req: ScopeReq::NoAsset,
            audited: false,
            approval: None,
            long_running: false,
        },
        ToolSpec {
            name: "job_cancel",
            description: "取消长任务（断开其连接，远端命令将收 SIGHUP）。状态由执行侧收敛为 cancelled，用 job_status 确认。",
            risk: RiskClass::Write,
            policy: Policy::NoApproval,
            scope_req: ScopeReq::NoAsset,
            audited: false,
            approval: None,
            long_running: false,
        },
        ToolSpec {
            name: "journal_query",
            description: "查询指定资产的 systemd 日志（journalctl 结构化：unit/since/until/grep/limit 参数固化在服务端，跨发行版口径统一——--no-pager、-o short-iso、env LC_ALL=C；非 systemd 系统返回 127 与降级指引）。仅支持 systemd 发行版。",
            risk: RiskClass::ReadOnly,
            policy: Policy::NoApproval,
            scope_req: ScopeReq::Asset,
            audited: true,
            approval: None,
            long_running: false,
        },
        ToolSpec {
            name: "port_listen",
            description: "查询指定资产的监听端口（ss → netstat → lsof 三级降级链固化在服务端；输出首行标注实际使用的工具；env LC_ALL=C 锁 locale；无任何可用工具时返回 127）。",
            risk: RiskClass::ReadOnly,
            policy: Policy::NoApproval,
            scope_req: ScopeReq::Asset,
            audited: true,
            approval: None,
            long_running: false,
        },
        ToolSpec {
            name: "process_list",
            description: "查询指定资产的进程列表（ps POSIX 形态：pid/ppid/user/%cpu/%mem/rss/stat/etime/comm；--no-headers 是 procps 扩展，BSD 自动降级带表头形态——子 shell 包裹保证两条路径都进排序管道；POSIX sort -k -nr 数值排序 + head 截前 N；sortBy=cpu|mem 枚举白名单）。",
            risk: RiskClass::ReadOnly,
            policy: Policy::NoApproval,
            scope_req: ScopeReq::Asset,
            audited: true,
            approval: None,
            long_running: false,
        },
        ToolSpec {
            name: "file_search",
            description: "按条件查找远端文件（find POSIX 形态：name 通配/minSizeMb/mtimeDays 过滤；**不用 GNU 专有格式化输出选项**（BusyBox/BSD 事故源，fact-guards 同类规则）；结果上限服务端拼进命令（默认 100 最大 1000，防深目录炸上下文）；需要元数据时对少量结果逐个 sftp_stat）。",
            risk: RiskClass::ReadOnly,
            policy: Policy::NoApproval,
            scope_req: ScopeReq::Asset,
            audited: true,
            approval: None,
            long_running: false,
        },
        ToolSpec {
            name: "service_control",
            description: "控制指定资产上的 systemd 服务生命周期（start/stop/restart/reload；action 枚举白名单；执行后自动补 is-active 确认最终态）。此操作改变服务运行状态，按拦截等级判定：Minimal 直接执行记日志 / Strict 弹窗确认。",
            risk: RiskClass::Write,
            policy: Policy::RemoteWrite,
            scope_req: ScopeReq::Asset,
            audited: true,
            approval: Some(ApprovalSpec { intent_default: None }),
            long_running: false,
        },
        ToolSpec {
            name: "tunnel_list",
            description: "列出当前隧道的清单与状态（kind: local/remote/dynamic；active/error 字段呈现异步失败）。",
            risk: RiskClass::ReadOnly,
            policy: Policy::NoApproval,
            scope_req: ScopeReq::NoAsset,
            audited: false,
            approval: None,
            long_running: false,
        },
        ToolSpec {
            name: "tunnel_create",
            description: "建立 remote 端口转发隧道（走资产专用连接，复用 GUI 同一路径；MVP 仅 remote——local/dynamic 需活跃会话请在 GUI 建）。建立端口转发 = 网络暴露面变更，Strict 档需确认。",
            risk: RiskClass::Write,
            policy: Policy::RemoteWrite,
            scope_req: ScopeReq::Asset,
            audited: true,
            approval: Some(ApprovalSpec { intent_default: None }),
            long_running: false,
        },
        ToolSpec {
            name: "sftp_list",
            description: "列出指定资产远程目录中的文件与子目录。返回 JSON 结构列表，包含名称、路径、类型（file/directory/symlink）、字节大小、修改时间与权限。",
            risk: RiskClass::ReadOnly,
            policy: Policy::NoApproval,
            scope_req: ScopeReq::Asset,
            audited: true,
            approval: None,
            long_running: false,
        },
        ToolSpec {
            name: "sftp_read_file",
            description: "读取指定资产上的远程文本文件（v0.20 起支持分页：默认单次 256KB，超限不再报错，响应带 nextOffset 续读；单次上限可传 maxBytes 最高 4MB）。适合配置排查与代码审计（敏感路径如 /etc/shadow、SSH 私钥需在客户端确认；二进制文件请改用 sftp_download）。",
            risk: RiskClass::ReadOnly,
            policy: Policy::RemoteReadSensitive,
            scope_req: ScopeReq::Asset,
            audited: true,
            approval: Some(ApprovalSpec { intent_default: Some("读取敏感系统凭据/配置") }),
            long_running: false,
        },
        ToolSpec {
            name: "read_output",
            description: "分页取回 ssh_exec 被截断的完整输出（v0.20/B2）：截断提示里给出的 cursor 在 10 分钟内可按 offset/limit 分段取回原文。只读缓存，不读文件。",
            risk: RiskClass::ReadOnly,
            policy: Policy::NoApproval,
            scope_req: ScopeReq::NoAsset,
            audited: false,
            approval: None,
            long_running: false,
        },
        ToolSpec {
            name: "sftp_write_file",
            description: "向指定资产写入远程文本文件。采用原子临时文件替换机制，单次上限 1MB。此操作涉及远程文件创建或覆盖，按拦截等级判定：Minimal 档直接执行并记执行日志，Strict 档需在客户端确认。调用时必须如实声明 intent 意图。",
            risk: RiskClass::Write,
            policy: Policy::RemoteWrite,
            scope_req: ScopeReq::Asset,
            audited: true,
            approval: Some(ApprovalSpec { intent_default: None }),
            long_running: false,
        },
        ToolSpec {
            name: "sftp_upload",
            description: "将本机文件流式上传至远程服务器。采用分块传输、临时文件落地原子替换与 SHA256 完整性校验。适用于大文件与二进制包传输。此操作涉及远程文件覆盖，按拦截等级判定：Minimal 档直接执行并记执行日志，Strict 档需在客户端确认。调用时必须声明 intent 意图。",
            risk: RiskClass::Write,
            policy: Policy::RemoteWrite,
            scope_req: ScopeReq::AssetAndLocalFs,
            audited: true,
            approval: Some(ApprovalSpec { intent_default: None }),
            long_running: false,
        },
        ToolSpec {
            name: "sftp_download",
            description: "将远程服务器上的文件流式下载至本机。采用分块传输与 SHA256 完整性校验。本机系统受保护核心目录恒拒；其余路径按拦截等级判定：Minimal 档直接执行并记执行日志，Strict 档需在客户端确认。调用时必须声明 intent 意图。",
            risk: RiskClass::Write,
            policy: Policy::LocalPathWrite,
            scope_req: ScopeReq::AssetAndLocalFs,
            audited: true,
            approval: Some(ApprovalSpec { intent_default: None }),
            long_running: false,
        },
        ToolSpec {
            name: "sftp_remove",
            description: "删除指定资产上的远程文件或目录。高危破坏性操作：系统根目录与顶级核心目录删除恒拒；其余路径按拦截等级判定——Minimal 档直接执行并记执行日志，Strict 档需在客户端确认。若删除非空目录，必须显式声明 recursive=true。调用时必须如实声明 intent 意图。",
            risk: RiskClass::Destructive,
            policy: Policy::RemoteDelete,
            scope_req: ScopeReq::Asset,
            audited: true,
            approval: Some(ApprovalSpec { intent_default: None }),
            long_running: false,
        }
    ]
}

/// Position of the first tool named `name`.
pub open spec fn tool_pos(s: Seq<ToolSpec>, name: Seq<char>) -> Option<int>
    decreases s.len(),
{
    if s.len() == 0 {
        None
    } else if s[0].name@ == name {
        Some(0)
    } else {
        match tool_pos(s.drop_first(), name) {
            Some(i) => Some(i + 1),
            None => None,
        }
    }
}

proof fn lemma_tool_pos(s: Seq<ToolSpec>, name: Seq<char>, i: int)
    requires
        0 <= i <= s.len(),
        forall|j: int| 0 <= j < i ==> (#[trigger] s[j]).name@ != name,
        i < s.len() ==> s[i].name@ == name,
    ensures
        tool_pos(s, name) == (if i < s.len() {
            Some(i)
        } else {
            None::<int>
        }),
    decreases s.len(),
{
    if s.len() > 0 && i > 0 {
        let t = s.drop_first();
        assert forall|j: int| 0 <= j < i - 1 implies (#[trigger] t[j]).name@ != name by {
            assert(t[j] == s[j + 1]);
        }
        lemma_tool_pos(t, name, i - 1);
    }
}

/// All tool declarations, in `tools/list` order.
#[verifier::rlimit(40)]
pub fn registry() -> (r: Vec<ToolSpec>)
    ensures
        r@ == registry_spec(),
{
    let mut v: Vec<ToolSpec> = Vec::new();
    v.push(
        ToolSpec {
            name: "list_assets",
            description: "列出所有已配置的 SSH 连接资产（不含密码/凭据，仅元数据：name/host/port/username/group/status）",
            risk: RiskClass::ReadOnly,
            policy: Policy::NoApproval,
            scope_req: ScopeReq::NoAsset,
            audited: false,
            approval: None,
            long_running: false,
        },
    );
    v.push(
        ToolSpec {
            name: "list_sessions",
            description: "列出当前客户端活跃的 SSH 会话清单（session_id 列表）。",
            risk: RiskClass::ReadOnly,
            policy: Policy::NoApproval,
            scope_req: ScopeReq::NoAsset,
            audited: false,
            approval: None,
            long_running: false,
        },
    );
    v.push(
        ToolSpec {
            name: "disk_usage",
            description: "查询指定资产的磁盘使用情况（执行 df -h）。stdout 含 rc_df=N 行标注 df 的真实退出码（复合命令回声，勿只看首行 exit_code）",
            risk: RiskClass::ReadOnly,
            policy: Policy::NoApproval,
            scope_req: ScopeReq::Asset,
            audited: true,
            approval: None,
            long_running: false,
        },
    );
    v.push(
        ToolSpec {
            name: "system_status",
            description: "查询指定资产的系统状态：uptime / 内存 / 负载 / top 进程。仅支持 Linux（依赖 /proc、procps 与 systemd）主机，其他平台命令会失败。stdout 含 rc_uptime/rc_free/rc_top=N 行标注各子段真实退出码（勿只看首行 exit_code，它只反映最后的 echo）；rc_top 由「先落临时文件再 head」取得，可信——top 不存在（slim 容器）时 rc_top≠0 且 stderr 带 not found",
            risk: RiskClass::ReadOnly,
            policy: Policy::NoApproval,
            scope_req: ScopeReq::Asset,
            audited: true,
            approval: None,
            long_running: false,
        },
    );
    v.push(
        ToolSpec {
            name: "service_status",
            description: "查询指定资产上某 systemd 服务的状态（systemctl status <service>）。仅支持 Linux（依赖 /proc 与 systemd）主机，其他平台命令会失败。stdout 含 rc_systemctl=N 行标注真实退出码",
            risk: RiskClass::ReadOnly,
            policy: Policy::NoApproval,
            scope_req: ScopeReq::Asset,
            audited: true,
            approval: None,
            long_running: false,
        },
    );
    v.push(
        ToolSpec {
            name: "resource_monitor_snapshot",
            description: "获取指定资产的资源监控快照（CPU负载、内存占用、磁盘空间概览）。仅支持 Linux（依赖 /proc 与 systemd）主机，其他平台命令会失败。stdout 含 rc_uptime/rc_free/rc_df=N 行标注各子命令真实退出码",
            risk: RiskClass::ReadOnly,
            policy: Policy::NoApproval,
            scope_req: ScopeReq::Asset,
            audited: true,
            approval: None,
            long_running: false,
        },
    );
    v.push(
        ToolSpec {
            name: "ssh_exec",
            description: "在指定资产上执行任意 Shell 命令。返回结构化文本：首行 exit_code=<n>（无退出码时 exit_code=unknown），随后为 stdout（无输出时给出提示），stderr 非空时以 --- stderr --- 分隔行附后，超长自动头尾截断。拦截语义：毁灭性命令（mkfs/dd 写块设备/rm 根级删除等）直接拒绝；其余按当前拦截等级放行或需确认（等级可在 myshelltool GUI 的 MCP 面板调整）。调用时必须如实声明 intent 意图。",
            risk: RiskClass::Destructive,
            policy: Policy::ShellExec,
            scope_req: ScopeReq::Asset,
            audited: true,
            approval: None,
            long_running: false,
        },
    );
    v.push(
        ToolSpec {
            name: "exec_many",
            description: "在多台资产上执行同一 Shell 命令（批量 fan-out，单次上限 64 台，并发 8 台排队）。逐目标返回结构化结果（exitCode/output/truncated/sessionSource）；单目标失败不影响其余；范围外目标记 denied。审批按命令文本一次判定放行整批。调用时必须如实声明 intent 意图。",
            risk: RiskClass::Destructive,
            policy: Policy::ShellExec,
            scope_req: ScopeReq::Asset,
            audited: true,
            approval: None,
            long_running: false,
        },
    );
    v.push(
        ToolSpec {
            name: "ssh_exec_async",
            description: "在指定资产上后台执行长时 Shell 命令（apt upgrade / mysqldump / rsync 等超过工具超时的命令），立即返回 job_id。用 job_status 轮询状态、job_output 分页读输出、job_cancel 取消（断开连接，远端命令收 SIGHUP）。job TTL 30 分钟，内存态不落盘。调用时必须如实声明 intent 意图。",
            risk: RiskClass::Destructive,
            policy: Policy::ShellExec,
            scope_req: ScopeReq::Asset,
            audited: true,
            approval: None,
            long_running: true,
        },
    );
    v.push(
        ToolSpec {
            name: "job_status",
            description: "查询长任务状态（running/done/failed/cancelled + 退出码 + 输出字节数）。",
            risk: RiskClass::ReadOnly,
            policy: Policy::NoApproval,
            scope_req: ScopeReq::NoAsset,
            audited: false,
            approval: None,
            long_running: false,
        },
    );
    v.push(
        ToolSpec {
            name: "job_output",
            description: "分页读取长任务输出（offset/limit，单页上限 1MiB；响应带总字节数与 EOF 标记）。",
            risk: RiskClass::ReadOnly,
            policy: Policy::NoApproval,
            scope_req: ScopeReq::NoAsset,
            audited: false,
            approval: None,
            long_running: false,
        },
    );
    v.push(
        ToolSpec {
            name: "job_cancel",
            description: "取消长任务（断开其连接，远端命令将收 SIGHUP）。状态由执行侧收敛为 cancelled，用 job_status 确认。",
            risk: RiskClass::Write,
            policy: Policy::NoApproval,
            scope_req: ScopeReq::NoAsset,
            audited: false,
            approval: None,
            long_running: false,
        },
    );
    v.push(
        ToolSpec {
            name: "journal_query",
            description: "查询指定资产的 systemd 日志（journalctl 结构化：unit/since/until/grep/limit 参数固化在服务端，跨发行版口径统一——--no-pager、-o short-iso、env LC_ALL=C；非 systemd 系统返回 127 与降级指引）。仅支持 systemd 发行版。",
            risk: RiskClass::ReadOnly,
            policy: Policy::NoApproval,
            scope_req: ScopeReq::Asset,
            audited: true,
            approval: None,
            long_running: false,
        },
    );
    v.push(
        ToolSpec {
            name: "port_listen",
            description: "查询指定资产的监听端口（ss → netstat → lsof 三级降级链固化在服务端；输出首行标注实际使用的工具；env LC_ALL=C 锁 locale；无任何可用工具时返回 127）。",
            risk: RiskClass::ReadOnly,
            policy: Policy::NoApproval,
            scope_req: ScopeReq::Asset,
            audited: true,
            approval: None,
            long_running: false,
        },
    );
    v.push(
        ToolSpec {
            name: "process_list",
            description: "查询指定资产的进程列表（ps POSIX 形态：pid/ppid/user/%cpu/%mem/rss/stat/etime/comm；--no-headers 是 procps 扩展，BSD 自动降级带表头形态——子 shell 包裹保证两条路径都进排序管道；POSIX sort -k -nr 数值排序 + head 截前 N；sortBy=cpu|mem 枚举白名单）。",
            risk: RiskClass::ReadOnly,
            policy: Policy::NoApproval,
            scope_req: ScopeReq::Asset,
            audited: true,
            approval: None,
            long_running: false,
        },
    );
    v.push(
        ToolSpec {
            name: "file_search",
            description: "按条件查找远端文件（find POSIX 形态：name 通配/minSizeMb/mtimeDays 过滤；**不用 GNU 专有格式化输出选项**（BusyBox/BSD 事故源，fact-guards 同类规则）；结果上限服务端拼进命令（默认 100 最大 1000，防深目录炸上下文）；需要元数据时对少量结果逐个 sftp_stat）。",
            risk: RiskClass::ReadOnly,
            policy: Policy::NoApproval,
            scope_req: ScopeReq::Asset,
            audited: true,
            approval: None,
            long_running: false,
        },
    );
    v.push(
        ToolSpec {
            name: "service_control",
            description: "控制指定资产上的 systemd 服务生命周期（start/stop/restart/reload；action 枚举白名单；执行后自动补 is-active 确认最终态）。此操作改变服务运行状态，按拦截等级判定：Minimal 直接执行记日志 / Strict 弹窗确认。",
            risk: RiskClass::Write,
            policy: Policy::RemoteWrite,
            scope_req: ScopeReq::Asset,
            audited: true,
            approval: Some(ApprovalSpec { intent_default: None }),
            long_running: false,
        },
    );
    v.push(
        ToolSpec {
            name: "tunnel_list",
            description: "列出当前隧道的清单与状态（kind: local/remote/dynamic；active/error 字段呈现异步失败）。",
            risk: RiskClass::ReadOnly,
            policy: Policy::NoApproval,
            scope_req: ScopeReq::NoAsset,
            audited: false,
            approval: None,
            long_running: false,
        },
    );
    v.push(
        ToolSpec {
            name: "tunnel_create",
            description: "建立 remote 端口转发隧道（走资产专用连接，复用 GUI 同一路径；MVP 仅 remote——local/dynamic 需活跃会话请在 GUI 建）。建立端口转发 = 网络暴露面变更，Strict 档需确认。",
            risk: RiskClass::Write,
            policy: Policy::RemoteWrite,
            scope_req: ScopeReq::Asset,
            audited: true,
            approval: Some(ApprovalSpec { intent_default: None }),
            long_running: false,
        },
    );
    v.push(
        ToolSpec {
            name: "sftp_list",
            description: "列出指定资产远程目录中的文件与子目录。返回 JSON 结构列表，包含名称、路径、类型（file/directory/symlink）、字节大小、修改时间与权限。",
            risk: RiskClass::ReadOnly,
            policy: Policy::NoApproval,
            scope_req: ScopeReq::Asset,
            audited: true,
            approval: None,
            long_running: false,
        },
    );
    v.push(
        ToolSpec {
            name: "sftp_read_file",
            description: "读取指定资产上的远程文本文件（v0.20 起支持分页：默认单次 256KB，超限不再报错，响应带 nextOffset 续读；单次上限可传 maxBytes 最高 4MB）。适合配置排查与代码审计（敏感路径如 /etc/shadow、SSH 私钥需在客户端确认；二进制文件请改用 sftp_download）。",
            risk: RiskClass::ReadOnly,
            policy: Policy::RemoteReadSensitive,
            scope_req: ScopeReq::Asset,
            audited: true,
            approval: Some(ApprovalSpec { intent_default: Some("读取敏感系统凭据/配置") }),
            long_running: false,
        },
    );
    v.push(
        ToolSpec {
            name: "read_output",
            description: "分页取回 ssh_exec 被截断的完整输出（v0.20/B2）：截断提示里给出的 cursor 在 10 分钟内可按 offset/limit 分段取回原文。只读缓存，不读文件。",
            risk: RiskClass::ReadOnly,
            policy: Policy::NoApproval,
            scope_req: ScopeReq::NoAsset,
            audited: false,
            approval: None,
            long_running: false,
        },
    );
    v.push(
        ToolSpec {
            name: "sftp_write_file",
            description: "向指定资产写入远程文本文件。采用原子临时文件替换机制，单次上限 1MB。此操作涉及远程文件创建或覆盖，按拦截等级判定：Minimal 档直接执行并记执行日志，Strict 档需在客户端确认。调用时必须如实声明 intent 意图。",
            risk: RiskClass::Write,
            policy: Policy::RemoteWrite,
            scope_req: ScopeReq::Asset,
            audited: true,
            approval: Some(ApprovalSpec { intent_default: None }),
            long_running: false,
        },
    );
    v.push(
        ToolSpec {
            name: "sftp_upload",
            description: "将本机文件流式上传至远程服务器。采用分块传输、临时文件落地原子替换与 SHA256 完整性校验。适用于大文件与二进制包传输。此操作涉及远程文件覆盖，按拦截等级判定：Minimal 档直接执行并记执行日志，Strict 档需在客户端确认。调用时必须声明 intent 意图。",
            risk: RiskClass::Write,
            policy: Policy::RemoteWrite,
            scope_req: ScopeReq::AssetAndLocalFs,
            audited: true,
            approval: Some(ApprovalSpec { intent_default: None }),
            long_running: false,
        },
    );
    v.push(
        ToolSpec {
            name: "sftp_download",
            description: "将远程服务器上的文件流式下载至本机。采用分块传输与 SHA256 完整性校验。本机系统受保护核心目录恒拒；其余路径按拦截等级判定：Minimal 档直接执行并记执行日志，Strict 档需在客户端确认。调用时必须声明 intent 意图。",
            risk: RiskClass::Write,
            policy: Policy::LocalPathWrite,
            scope_req: ScopeReq::AssetAndLocalFs,
            audited: true,
            approval: Some(ApprovalSpec { intent_default: None }),
            long_running: false,
        },
    );
    v.push(
        ToolSpec {
            name: "sftp_remove",
            description: "删除指定资产上的远程文件或目录。高危破坏性操作：系统根目录与顶级核心目录删除恒拒；其余路径按拦截等级判定——Minimal 档直接执行并记执行日志，Strict 档需在客户端确认。若删除非空目录，必须显式声明 recursive=true。调用时必须如实声明 intent 意图。",
            risk: RiskClass::Destructive,
            policy: Policy::RemoteDelete,
            scope_req: ScopeReq::Asset,
            audited: true,
            approval: Some(ApprovalSpec { intent_default: None }),
            long_running: false,
        },
    );
    assert(v@ =~= registry_spec());
    v
}

/// The declaration of the tool named `name`.
pub fn find(name: &str) -> (r: Option<ToolSpec>)
    ensures
        match tool_pos(registry_spec(), name@) {
            Some(i) => r == Some(registry_spec()[i]),
            None => r is None,
        },
{
    let v = registry();
    let mut i: usize = 0;
    while i < v.len()
        invariant
            v@ == registry_spec(),
            i <= v@.len(),
            forall|j: int| 0 <= j < i ==> (#[trigger] v@[j]).name@ != name@,
        decreases v.len() - i,
    {
        if same_text(v[i].name, name) {
            proof {
                lemma_tool_pos(v@, name@, i as int);
            }
            return Some(v[i]);
        }
        i += 1;
    }
    proof {
        lemma_tool_pos(v@, name@, v@.len() as int);
    }
    None
}

/// The GUI tag of a tool: derived from its risk; an unknown name is
/// `readonly`.
pub fn tool_tag(name: &str) -> (r: &'static str)
    ensures
        r@ == match tool_pos(registry_spec(), name@) {
            Some(i) => gui_tag_text(registry_spec()[i].risk),
            None => "readonly"@,
        },
{
    match find(name) {
        Some(spec) => spec.risk.gui_tag(),
        None => "readonly",
    }
}

impl ToolSpec {
    /// The approval texts of a call: the declared intent, else the tool's
    /// default intent, else empty; the command line and consequence as given.
    pub fn approval_info(&self, intent: Option<&str>, command: String, consequence: String) -> (r:
        ElicitationInfo)
        requires
            self.approval is Some,
        ensures
            r.intent@ == match intent {
                Some(t) => t@,
                None => match self.approval->0.intent_default {
                    Some(d) => d@,
                    None => ""@,
                },
            },
            r.command@ == command@,
            r.consequence@ == consequence@,
    {
        let spec = self.approval.unwrap();
        proof {
            reveal_strlit("");
        }
        let intent_text = match intent {
            Some(t) => t.to_owned(),
            None => match spec.intent_default {
                Some(d) => d.to_owned(),
                None => String::new(),
            },
        };
        ElicitationInfo { intent: intent_text, command, consequence }
    }
}

/// Whether a policy may ask for the user's confirmation or refuse.
pub open spec fn policy_has_texts(p: Policy) -> bool {
    p == Policy::RemoteWrite || p == Policy::RemoteReadSensitive || p == Policy::RemoteDelete || p
        == Policy::LocalPathWrite
}

/// A tool declares approval texts exactly when its policy may ask.
pub open spec fn texts_match_policy(t: ToolSpec) -> bool {
    (t.approval is Some) == policy_has_texts(t.policy)
}

/// A tool that touches no asset is neither logged nor approved; a shell tool
/// is destructive.
pub open spec fn local_and_shell_consistent(t: ToolSpec) -> bool {
    &&& t.scope_req == ScopeReq::NoAsset ==> !t.audited && t.policy == Policy::NoApproval
    &&& t.policy == Policy::ShellExec ==> t.risk == RiskClass::Destructive
}

/// Law: a tool declares approval texts exactly when its policy may ask for
/// confirmation (remote writes, sensitive reads, deletes, local writes).
pub proof fn lemma_approval_texts_match_policy(i: int)
    requires
        0 <= i < registry_spec().len(),
    ensures
        texts_match_policy(registry_spec()[i]),
{
    let s = registry_spec();
    assert(texts_match_policy(s[0]));
    assert(texts_match_policy(s[1]));
    assert(texts_match_policy(s[2]));
    assert(texts_match_policy(s[3]));
    assert(texts_match_policy(s[4]));
    assert(texts_match_policy(s[5]));
    assert(texts_match_policy(s[6]));
    assert(texts_match_policy(s[7]));
    assert(texts_match_policy(s[8]));
    assert(texts_match_policy(s[9]));
    assert(texts_match_policy(s[10]));
    assert(texts_match_policy(s[11]));
    assert(texts_match_policy(s[12]));
    assert(texts_match_policy(s[13]));
    assert(texts_match_policy(s[14]));
    assert(texts_match_policy(s[15]));
    assert(texts_match_policy(s[16]));
    assert(texts_match_policy(s[17]));
    assert(texts_match_policy(s[18]));
    assert(texts_match_policy(s[19]));
    assert(texts_match_policy(s[20]));
    assert(texts_match_policy(s[21]));
    assert(texts_match_policy(s[22]));
    assert(texts_match_policy(s[23]));
    assert(texts_match_policy(s[24]));
    assert(texts_match_policy(s[25]));
    assert(i == 0 || i == 1 || i == 2 || i == 3 || i == 4 || i == 5 || i == 6 || i == 7 || i == 8 || i == 9 || i == 10 || i == 11 || i == 12 || i == 13 || i == 14 || i == 15 || i == 16 || i == 17 || i == 18 || i == 19 || i == 20 || i == 21 || i == 22 || i == 23 || i == 24 || i == 25);
}

/// Law: a tool that touches no asset is neither logged nor approved, and every
/// shell tool is marked destructive.
pub proof fn lemma_local_tools_unlogged(i: int)
    requires
        0 <= i < registry_spec().len(),
    ensures
        local_and_shell_consistent(registry_spec()[i]),
{
    let s = registry_spec();
    assert(local_and_shell_consistent(s[0]));
    assert(local_and_shell_consistent(s[1]));
    assert(local_and_shell_consistent(s[2]));
    assert(local_and_shell_consistent(s[3]));
    assert(local_and_shell_consistent(s[4]));
    assert(local_and_shell_consistent(s[5]));
    assert(local_and_shell_consistent(s[6]));
    assert(local_and_shell_consistent(s[7]));
    assert(local_and_shell_consistent(s[8]));
    assert(local_and_shell_consistent(s[9]));
    assert(local_and_shell_consistent(s[10]));
    assert(local_and_shell_consistent(s[11]));
    assert(local_and_shell_consistent(s[12]));
    assert(local_and_shell_consistent(s[13]));
    assert(local_and_shell_consistent(s[14]));
    assert(local_and_shell_consistent(s[15]));
    assert(local_and_shell_consistent(s[16]));
    assert(local_and_shell_consistent(s[17]));
    assert(local_and_shell_consistent(s[18]));
    assert(local_and_shell_consistent(s[19]));
    assert(local_and_shell_consistent(s[20]));
    assert(local_and_shell_consistent(s[21]));
    assert(local_and_shell_consistent(s[22]));
    assert(local_and_shell_consistent(s[23]));
    assert(local_and_shell_consistent(s[24]));
    assert(local_and_shell_consistent(s[25]));
    assert(i == 0 || i == 1 || i == 2 || i == 3 || i == 4 || i == 5 || i == 6 || i == 7 || i == 8 || i == 9 || i == 10 || i == 11 || i == 12 || i == 13 || i == 14 || i == 15 || i == 16 || i == 17 || i == 18 || i == 19 || i == 20 || i == 21 || i == 22 || i == 23 || i == 24 || i == 25);
}

} // verus!
