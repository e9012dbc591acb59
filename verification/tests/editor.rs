use myshelltool::editor::{
    after_remove, after_rename, after_retry, after_target_stat, classify_missing, decode_verdict,
    ederr, eol_kind_to_str, open_guard, parse_eol_target, restore_bom, temp_path_for, write_guard,
    DecodeVerdict, EolKind, RemoteTextOutcome, ReplaceStep, TargetStat, WriteGuard,
};

fn some(s: &str) -> Option<String> {
    Some(s.to_string())
}

#[test]
fn editor_error_prefix() {
    assert_eq!(ederr("lossy", "x"), "[editor:lossy] x");
}

#[test]
fn eol_targets() {
    assert_eq!(parse_eol_target(&some(" LF ")), Some(EolKind::Lf));
    assert_eq!(parse_eol_target(&some("CRLF")), Some(EolKind::Crlf));
    assert_eq!(parse_eol_target(&some("cr lf")), Some(EolKind::Crlf));
    assert_eq!(parse_eol_target(&some("mixed")), None);
    assert_eq!(parse_eol_target(&None), None);
    assert_eq!(eol_kind_to_str(EolKind::Mixed), "mixed");
}

#[test]
fn missing_files_are_classified() {
    assert_eq!(
        classify_missing("SFTP open failed", "No such file (2)", "/a"),
        "[editor:not-found] 文件不存在：/a"
    );
    assert_eq!(classify_missing("SFTP open failed", "Permission denied", "/a"), "SFTP open failed: Permission denied");
}

#[test]
fn open_guard_limits() {
    assert_eq!(open_guard(true, 1, "/d").unwrap_err(), "[editor:dir] 目标路径是目录：/d");
    assert_eq!(
        open_guard(false, 2097153, "/f").unwrap_err(),
        "[editor:too-large] 文件 2097153 字节，超过编辑器上限 2097152 字节（2 MiB）。请下载后用本地工具编辑"
    );
    assert!(open_guard(false, 2097152, "/f").is_ok());
}

#[test]
fn decoding_verdicts() {
    assert_eq!(
        decode_verdict(RemoteTextOutcome::Binary("NUL".into()), true).err().unwrap(),
        "[editor:binary] 文件是二进制内容（NUL），无法按文本编辑，请改用下载"
    );
    assert_eq!(
        decode_verdict(RemoteTextOutcome::NotUtf8("offset 3".into()), false).err().unwrap(),
        "[editor:not-utf8] 文件不是 UTF-8 文本（offset 3）。请切换编码（常见：GBK）后重新打开"
    );
    assert!(matches!(decode_verdict(RemoteTextOutcome::NotUtf8("x".into()), true), Ok(DecodeVerdict::WithEncoding)));
    assert!(matches!(
        decode_verdict(RemoteTextOutcome::Text { text: "hi".into(), has_bom: true }, false),
        Ok(DecodeVerdict::Utf8 { text, has_bom: true }) if text == "hi"
    ));
    assert!(restore_bom(true, "utf-8"));
    assert!(!restore_bom(true, "gbk"));
    assert!(!restore_bom(false, "utf-8"));
}

fn found(size: u64, modified: &str) -> TargetStat {
    TargetStat::Found { is_dir: false, size, modified: modified.into() }
}

#[test]
fn save_conflicts() {
    assert!(matches!(write_guard(found(5, "100"), Some(5), &some("100"), "/f"), Ok(WriteGuard::Write { existing: true })));
    match write_guard(found(6, "101"), Some(5), &some("100"), "/f") {
        Ok(WriteGuard::Conflict(c)) => {
            assert_eq!((c.status, c.size, c.modified.as_str()), ("conflict", 6, "101"));
            assert_eq!(c.conflict_note.as_deref(), Some("远端文件在打开后已被修改（大小或修改时间变化）。"));
        }
        _ => panic!("expected a conflict"),
    }
    assert!(matches!(write_guard(found(6, "101"), None, &None, "/f"), Ok(WriteGuard::Write { existing: true })));
    match write_guard(TargetStat::Failed("no such file".into()), Some(5), &None, "/f") {
        Ok(WriteGuard::Conflict(c)) => assert_eq!(c.conflict_note.as_deref(), Some("远端文件已被删除。")),
        _ => panic!("expected a conflict"),
    }
    assert!(matches!(write_guard(TargetStat::Failed("No such file".into()), None, &None, "/f"), Ok(WriteGuard::Write { existing: false })));
    assert!(matches!(write_guard(TargetStat::Failed("denied".into()), None, &None, "/f"), Err(e) if e == "SFTP stat failed: denied"));
    assert!(matches!(
        write_guard(TargetStat::Found { is_dir: true, size: 0, modified: String::new() }, None, &None, "/d"),
        Err(e) if e == "[editor:dir] 目标路径是目录：/d"
    ));
}

#[test]
fn atomic_replace_steps() {
    assert_eq!(temp_path_for("/a.txt", "u1"), "/a.txt.myshelltool.u1.tmp");
    assert!(matches!(after_rename(&None), ReplaceStep::Done));
    assert!(matches!(after_rename(&some("e")), ReplaceStep::StatTarget));
    assert!(matches!(after_target_stat(true, "/t", "e", "/tmp"), ReplaceStep::RemoveTarget));
    assert!(matches!(after_target_stat(false, "/t", "e", "/tmp"),
        ReplaceStep::Fail(m) if m == "原子替换文件失败 (rename to /t): e; 新数据保留在临时文件 /tmp，排除故障后可手动恢复或重试"));
    assert!(matches!(after_remove(&None, "/t", "e", "/tmp"), ReplaceStep::RetryRename));
    assert!(matches!(after_remove(&some("r"), "/t", "e", "/tmp"),
        ReplaceStep::Fail(m) if m == "原子替换失败 (rename to /t): e; 回退删除已存在目标也失败（原文件未删除）: r; 新数据保留在临时文件 /tmp，排除故障后可手动恢复或重试"));
    assert!(matches!(after_retry(&None, "/t", "e", "/tmp"), ReplaceStep::Done));
    assert!(matches!(after_retry(&some("x"), "/t", "e", "/tmp"),
        ReplaceStep::Fail(m) if m == "原子替换失败 (rename to /t): 首次 e; 删除目标后重试仍失败: x; 原文件已删除，新数据保留在临时文件 /tmp，请手动恢复"));
}
