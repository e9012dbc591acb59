use myshelltool::approval::{
    evaluate, format_rejection, predict_consequence, readonly_whitelist, ApprovalDecision,
    AutoApproveReason, CommandRisk, DangerousMatch,
};
use myshelltool::config::McpInterceptLevel;

const LEVELS: [McpInterceptLevel; 2] = [McpInterceptLevel::Minimal, McpInterceptLevel::Strict];

fn pattern(p: &str) -> DangerousMatch {
    DangerousMatch { pattern: p.to_string() }
}

// The classifier's verdicts for the sample commands, as the command
// classification hands them to `evaluate`.
const RM_ROOT: &str = r"\brm\s+-[a-zA-Z]*[rf][a-zA-Z]*\s+(/|~|\.)\s*$";
const RM_RECURSIVE: &str = r"rm\s+-[a-zA-Z]*r";
const MKFS: &str = r"\bmkfs(\.\w+)?\b";
const REBOOT: &str = r"\breboot\b";

#[test]
fn whitelist_command_auto_approved_under_both_levels() {
    for level in LEVELS {
        let d = evaluate("df -h", "查询磁盘", None, CommandRisk::Safe, level);
        match d {
            ApprovalDecision::AutoExecute(reason) => {
                assert!(matches!(reason, AutoApproveReason::Whitelist));
            }
            _ => panic!("expected AutoExecute for level={level:?}"),
        }
    }
}

#[test]
fn noncatastrophic_dangerous_minimal_allows_strict_elicits() {
    let d = evaluate(
        "rm -rf /var/log",
        "清理日志",
        None,
        CommandRisk::Dangerous(pattern(RM_RECURSIVE)),
        McpInterceptLevel::Minimal,
    );
    assert!(matches!(d, ApprovalDecision::AutoExecute(AutoApproveReason::MinimalFallback)));

    let d = evaluate(
        "rm -rf /var/log",
        "清理日志",
        None,
        CommandRisk::Dangerous(pattern(RM_RECURSIVE)),
        McpInterceptLevel::Strict,
    );
    match d {
        ApprovalDecision::RequestElicitation(info) => {
            assert_eq!(info.intent, "清理日志");
            assert_eq!(info.command, "rm -rf /var/log");
            assert!(info.consequence.contains("递归"));
            let msg = info.to_message();
            assert!(msg.contains("【AI 声明意图】清理日志"));
            assert!(msg.contains("【真实命令】rm -rf /var/log"));
            assert!(msg.contains("【后果预测】"));
        }
        _ => panic!("expected RequestElicitation under strict"),
    }
}

#[test]
fn catastrophic_commands_hard_blocked_under_both_levels() {
    for (cmd, p) in [("rm -rf /", RM_ROOT), ("mkfs.ext4 /dev/sda1", MKFS)] {
        for level in LEVELS {
            let d = evaluate(cmd, "测试", Some(pattern(p)), CommandRisk::Unknown, level);
            match d {
                ApprovalDecision::HardBlock { reason } => {
                    assert!(reason.contains("拦截"), "cmd={cmd}");
                    assert!(reason.contains(cmd), "cmd={cmd}");
                }
                _ => panic!("expected HardBlock for cmd={cmd} level={level:?}"),
            }
        }
    }
}

#[test]
fn rm_root_split_and_reversed_flags_hard_blocked() {
    for cmd in ["rm -fr /", "rm -r -f /"] {
        for level in LEVELS {
            let d = evaluate(cmd, "清理", Some(pattern(RM_ROOT)), CommandRisk::Unknown, level);
            assert!(
                matches!(d, ApprovalDecision::HardBlock { .. }),
                "expected HardBlock for cmd={cmd} level={level:?}"
            );
        }
    }
}

#[test]
fn reboot_allowed_under_minimal() {
    let risk = || CommandRisk::Dangerous(pattern(REBOOT));
    let d = evaluate("reboot", "重启", None, risk(), McpInterceptLevel::Minimal);
    assert!(matches!(d, ApprovalDecision::AutoExecute(AutoApproveReason::MinimalFallback)));
    let d = evaluate("reboot", "重启", None, risk(), McpInterceptLevel::Strict);
    assert!(matches!(d, ApprovalDecision::RequestElicitation(_)));
}

#[test]
fn unknown_command_minimal_allows_strict_elicits() {
    let d = evaluate("echo hello", "", None, CommandRisk::Unknown, McpInterceptLevel::Minimal);
    match d {
        ApprovalDecision::AutoExecute(reason) => {
            assert!(matches!(reason, AutoApproveReason::MinimalFallback));
        }
        _ => panic!("expected AutoExecute under minimal"),
    }
    let d = evaluate("echo hello", "", None, CommandRisk::Unknown, McpInterceptLevel::Strict);
    match d {
        ApprovalDecision::RequestElicitation(info) => {
            assert!(info.intent.is_empty());
            let msg = info.to_message();
            assert!(msg.contains("AI 未声明意图"));
        }
        _ => panic!("expected RequestElicitation under strict"),
    }
}

#[test]
fn yellow_list_minimal_allows_strict_elicits() {
    let d = evaluate("nginx -t", "测试配置", None, CommandRisk::Allowed, McpInterceptLevel::Minimal);
    assert!(matches!(d, ApprovalDecision::AutoExecute(AutoApproveReason::MinimalFallback)));
    let d = evaluate("nginx -t", "测试配置", None, CommandRisk::Allowed, McpInterceptLevel::Strict);
    assert!(matches!(d, ApprovalDecision::RequestElicitation(_)));
}

#[test]
fn mkfs_hard_block_reason_mentions_consequence() {
    for level in LEVELS {
        let d = evaluate("mkfs.ext4 /dev/sda1", "格式化", Some(pattern(MKFS)), CommandRisk::Unknown, level);
        match d {
            ApprovalDecision::HardBlock { reason } => {
                assert!(reason.contains("格式化"));
                assert!(reason.contains("数据"));
            }
            _ => panic!("expected HardBlock for level={level:?}"),
        }
    }
}

#[test]
fn consequence_texts_follow_the_pattern() {
    assert_eq!(
        predict_consequence(&pattern(RM_ROOT)),
        "将递归强制删除文件系统根/家/当前目录，系统即刻报废，数据不可恢复。"
    );
    assert_eq!(predict_consequence(&pattern(REBOOT)), "将重启服务器，正在运行的进程会被中断。");
    assert_eq!(predict_consequence(&pattern("something-else")), "此命令被判定为危险操作。");
}

#[test]
fn rejection_text_has_the_three_parts() {
    let t = format_rejection("", "reboot", "将重启服务器");
    assert!(t.starts_with("【高危操作已被拒绝】"));
    assert!(t.contains("【AI 声明意图】(AI 未声明意图)"));
    assert!(t.contains("【真实命令】reboot"));
    assert!(t.contains("【后果预测】将重启服务器"));
}

#[test]
fn whitelist_has_the_read_only_prefixes() {
    let w = readonly_whitelist();
    assert_eq!(w.len(), 21);
    assert_eq!(w[0], "df");
    assert_eq!(w[20], "tail");
}
