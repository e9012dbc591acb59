use myshelltool::approval::{ApprovalDecision, AutoApproveReason, CommandRisk, ElicitationInfo};
use myshelltool::config::McpInterceptLevel;
use myshelltool::server::{
    check_approval_needed, elicit_outcome, gui_outcome, log_scope_for, plan_after_approval,
    plan_after_confirmation, ApprovalVia, CallPlan, CommandClass, ElicitOutcome, ElicitReply,
    GuiReply, LocalProbe, LocalTarget, ToolArgs,
};

fn args() -> ToolArgs {
    ToolArgs {
        asset_id: Some("a1".into()),
        intent: Some("check".into()),
        command: None,
        path: None,
        recursive: None,
        local_path: None,
        remote_path: None,
        service: None,
    }
}

fn safe() -> CommandClass {
    CommandClass { catastrophic: None, risk: CommandRisk::Safe }
}

fn unknown() -> CommandClass {
    CommandClass { catastrophic: None, risk: CommandRisk::Unknown }
}

fn local(protected: bool, probe: LocalProbe) -> LocalTarget {
    LocalTarget { protected, probe }
}

fn approve(tool: &str, a: ToolArgs, level: McpInterceptLevel) -> Option<ApprovalDecision> {
    check_approval_needed(tool, Some(a), level, unknown(), local(false, LocalProbe::NotFound))
}

#[test]
fn log_scope_per_tool() {
    let mut a = args();
    a.command = Some("uptime".into());
    let s = log_scope_for("ssh_exec", &Some(a)).unwrap();
    assert_eq!((s.tool.as_str(), s.command.as_str(), s.asset_id.as_str(), s.intent.as_str()), ("ssh_exec", "uptime", "a1", "check"));
    let s = log_scope_for("sftp_list", &Some(args())).unwrap();
    assert_eq!(s.command, "list .");
    let mut a = args();
    a.local_path = Some("/l".into());
    a.remote_path = Some("/r".into());
    assert_eq!(log_scope_for("sftp_download", &Some(a)).unwrap().command, "download /r -> /l");
    let mut a = args();
    a.service = Some("nginx".into());
    assert_eq!(
        log_scope_for("service_status", &Some(a)).unwrap().command,
        "env LC_ALL=C systemctl status nginx; echo rc_systemctl=$?"
    );
    assert_eq!(log_scope_for("resource_monitor_snapshot", &Some(args())).unwrap().command, "snapshot");
    assert!(log_scope_for("list_assets", &Some(args())).is_none());
    assert!(log_scope_for("ssh_exec", &None).is_none());
}

#[test]
fn ssh_exec_goes_through_the_classifier() {
    let mut a = args();
    a.command = Some("ls".into());
    let d = check_approval_needed("ssh_exec", Some(a), McpInterceptLevel::Strict, safe(), local(false, LocalProbe::NotFound));
    assert!(matches!(d, Some(ApprovalDecision::AutoExecute(AutoApproveReason::Whitelist))));
    assert!(check_approval_needed("ssh_exec", Some(args()), McpInterceptLevel::Strict, safe(), local(false, LocalProbe::NotFound)).is_none());
}

#[test]
fn removing_a_core_directory_is_refused_at_every_level() {
    for level in [McpInterceptLevel::Minimal, McpInterceptLevel::Strict] {
        let mut a = args();
        a.path = Some("/etc".into());
        assert!(matches!(approve("sftp_remove", a, level),
            Some(ApprovalDecision::HardBlock { reason }) if reason == "拒绝执行：目标路径 '/etc' 属于系统根目录或顶级核心目录，禁止删除。"));
    }
}

#[test]
fn ordinary_removal_follows_the_level() {
    let mut a = args();
    a.path = Some("/tmp/x".into());
    a.recursive = Some(true);
    assert!(matches!(approve("sftp_remove", a, McpInterceptLevel::Minimal),
        Some(ApprovalDecision::AutoExecute(AutoApproveReason::MinimalFallback))));
    let mut a = args();
    a.path = Some("/tmp/x".into());
    a.recursive = Some(true);
    match approve("sftp_remove", a, McpInterceptLevel::Strict) {
        Some(ApprovalDecision::RequestElicitation(i)) => {
            assert_eq!(i.intent, "check");
            assert_eq!(i.command, "sftp_remove path=/tmp/x recursive=true");
            assert_eq!(i.consequence, "【危险】将递归删除整个目录及其内部所有子文件与子目录！此操作不可撤销。");
        }
        _ => panic!("expected a confirmation"),
    }
}

#[test]
fn sensitive_reads_always_ask() {
    for level in [McpInterceptLevel::Minimal, McpInterceptLevel::Strict] {
        let mut a = args();
        a.path = Some("/etc/shadow".into());
        a.intent = None;
        match approve("sftp_read_file", a, level) {
            Some(ApprovalDecision::RequestElicitation(i)) => {
                assert_eq!(i.intent, "读取敏感系统凭据/配置");
                assert_eq!(i.command, "sftp_read_file path=/etc/shadow");
            }
            _ => panic!("expected a confirmation"),
        }
    }
    let mut a = args();
    a.path = Some("/var/log/syslog".into());
    assert!(matches!(approve("sftp_read_file", a, McpInterceptLevel::Strict),
        Some(ApprovalDecision::AutoExecute(AutoApproveReason::Whitelist))));
}

#[test]
fn downloads_into_protected_dirs_are_refused() {
    let mut a = args();
    a.local_path = Some("C:\\Windows\\x".into());
    a.remote_path = Some("/r".into());
    let d = check_approval_needed("sftp_download", Some(a), McpInterceptLevel::Minimal, unknown(), local(true, LocalProbe::Unknown));
    assert!(matches!(d, Some(ApprovalDecision::HardBlock { reason }) if reason == "拒绝执行：本机下载路径 'C:\\Windows\\x' 属于系统受保护核心目录。"));
    let mut a = args();
    a.local_path = Some("/home/u/x".into());
    a.remote_path = Some("/r".into());
    match check_approval_needed("sftp_download", Some(a), McpInterceptLevel::Strict, unknown(), local(false, LocalProbe::Exists)) {
        Some(ApprovalDecision::RequestElicitation(i)) => {
            assert_eq!(i.command, "sftp_download /r -> /home/u/x");
            assert_eq!(i.consequence, "【注意】本机目标文件已存在，下载将覆盖本机旧文件！");
        }
        _ => panic!("expected a confirmation"),
    }
    assert!(approve("list_assets", args(), McpInterceptLevel::Strict).is_none());
}

fn proceed(p: CallPlan) -> &'static str {
    match p {
        CallPlan::Proceed { decision } => decision,
        _ => panic!("expected to proceed"),
    }
}

fn refuse(p: CallPlan) -> (&'static str, String) {
    match p {
        CallPlan::Refuse { decision, message } => (decision, message),
        _ => panic!("expected a refusal"),
    }
}

#[test]
fn plans_and_their_log_decisions() {
    assert_eq!(proceed(plan_after_approval(None)), "not_required");
    assert_eq!(proceed(plan_after_approval(Some(ApprovalDecision::AutoExecute(AutoApproveReason::Whitelist)))), "auto_approved");
    assert_eq!(proceed(plan_after_approval(Some(ApprovalDecision::AutoExecute(AutoApproveReason::MinimalFallback)))), "minimal_allowed");
    assert_eq!(
        refuse(plan_after_approval(Some(ApprovalDecision::HardBlock { reason: "no".into() }))),
        ("hard_blocked", "no".to_string())
    );
    let info = ElicitationInfo { intent: "i".into(), command: "c".into(), consequence: "q".into() };
    assert!(matches!(plan_after_approval(Some(ApprovalDecision::RequestElicitation(info))), CallPlan::Confirm(_)));

    assert_eq!(proceed(plan_after_confirmation(ElicitOutcome::Accepted { via: ApprovalVia::Gui })), "gui_accepted");
    assert_eq!(
        refuse(plan_after_confirmation(ElicitOutcome::Declined { via: ApprovalVia::Elicitation, reason: "r".into() })),
        ("elicitation_declined", "r".to_string())
    );
    assert_eq!(
        refuse(plan_after_confirmation(ElicitOutcome::Timeout)),
        ("timeout", "GUI 审批超时（60s 未响应），已拒绝执行".to_string())
    );
    assert_eq!(refuse(plan_after_confirmation(ElicitOutcome::NotSupported("x".into()))).0, "rejected");
}

#[test]
fn confirmation_channels() {
    assert!(matches!(elicit_outcome(ElicitReply::Form(true)), Some(ElicitOutcome::Accepted { via: ApprovalVia::Elicitation })));
    assert!(matches!(elicit_outcome(ElicitReply::Form(false)),
        Some(ElicitOutcome::Declined { reason, .. }) if reason == "用户在确认框中选择了不执行"));
    assert!(matches!(elicit_outcome(ElicitReply::Empty),
        Some(ElicitOutcome::Declined { reason, .. }) if reason == "用户未提供确认"));
    assert!(elicit_outcome(ElicitReply::Failed).is_none());
    let info = ElicitationInfo { intent: "i".into(), command: "c".into(), consequence: "q".into() };
    assert!(matches!(gui_outcome(GuiReply::Answer(true), &info), ElicitOutcome::Accepted { via: ApprovalVia::Gui }));
    assert!(matches!(gui_outcome(GuiReply::Answer(false), &info),
        ElicitOutcome::Declined { reason, .. } if reason == "用户在 GUI 弹窗中拒绝"));
    assert!(matches!(gui_outcome(GuiReply::ChannelClosed, &info), ElicitOutcome::NotSupported(m) if m == "GUI 审批通道异常关闭"));
    assert!(matches!(gui_outcome(GuiReply::TimedOut, &info), ElicitOutcome::Timeout));
    assert!(matches!(gui_outcome(GuiReply::Unavailable, &info), ElicitOutcome::NotSupported(m) if m.contains("c")));
}
