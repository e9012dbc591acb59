use myshelltool::session_pool::{AuthMethod, ConnectionAsset, ConnectionStatus};
use myshelltool::sync_plan::{
    check_reset_passwords, check_sync_state_text, conflict_choice, has_local_changes_since_last_sync,
    local_assets_json, local_changes_after, mask_gist_id, needed_credential_ids, push_preflight,
    pushed_message, remote_update_status, require_master_password, restorable, setup_plan,
    sync_status_result, AssetsRead, CollectOutcome, ConflictSide, RemoteRevision, RestoreTally,
    SetupPlan, SyncCredentialItem,
};

fn asset(cred: Option<&str>, pass: Option<&str>, key: Option<&str>) -> ConnectionAsset {
    ConnectionAsset {
        id: "a".into(),
        name: "n".into(),
        host: "h".into(),
        port: 22,
        username: "u".into(),
        auth_method: AuthMethod::Password,
        private_key_path: None,
        group: "g".into(),
        tags: vec![],
        status: ConnectionStatus::Idle,
        last_connected: String::new(),
        credential_id: cred.map(|s| s.to_string()),
        passphrase_credential_id: pass.map(|s| s.to_string()),
        private_key_credential_id: key.map(|s| s.to_string()),
        jump_host: None,
        connect_timeout_secs: None,
        keepalive_interval_secs: None,
    }
}

#[test]
fn gist_id_is_masked_by_characters() {
    assert_eq!(mask_gist_id("abc"), "abc");
    assert_eq!(mask_gist_id("abcdef"), "abcdef");
    assert_eq!(mask_gist_id("0123456789abcdef"), "...abcdef");
    assert_eq!(mask_gist_id("同步标识符一二三四"), "...识符一二三四");
}

#[test]
fn remote_updates_need_both_revisions() {
    assert!(remote_update_status(Some(3), Some(4)).has_updates);
    assert!(!remote_update_status(Some(4), Some(4)).has_updates);
    assert!(!remote_update_status(None, Some(4)).has_updates);
    assert!(!remote_update_status(Some(1), None).has_updates);
}

#[test]
fn local_changes_are_judged_conservatively() {
    let t = Some("2024-01-01T00:00:00+00:00".to_string());
    // 1704067200 is that instant
    assert!(!has_local_changes_since_last_sync(&t, Some(1704067200)));
    assert!(has_local_changes_since_last_sync(&t, Some(1704067201)));
    assert!(has_local_changes_since_last_sync(&t, None));
    assert!(has_local_changes_since_last_sync(&None, Some(0)));
    assert!(has_local_changes_since_last_sync(&Some("yesterday".into()), Some(0)));
    assert!(!local_changes_after(Some(-5), Some(0)));
    assert!(local_changes_after(None, Some(0)));
}

#[test]
fn blank_state_file_is_damage() {
    let err = check_sync_state_text("C:/d/sync-state.json", "  \n").unwrap_err();
    assert!(err.starts_with("sync-state.json 存在但为空（C:/d/sync-state.json）"));
    assert!(err.ends_with("或从 C:/d/sync-state.json.tmp-* 残留中恢复）"));
    assert!(check_sync_state_text("p", "{}").is_ok());
}

#[test]
fn missing_asset_file_is_the_empty_store() {
    assert_eq!(local_assets_json(AssetsRead::NotFound, "p").unwrap(), r#"{"assets":[],"groups":[]}"#);
    assert_eq!(local_assets_json(AssetsRead::Text("{}".into()), "p").unwrap(), "{}");
    assert_eq!(
        local_assets_json(AssetsRead::Failed("denied".into()), "C:/a.json").unwrap_err(),
        "读取本地资产文件失败（C:/a.json）：denied"
    );
}

#[test]
fn push_needs_the_remote_at_the_local_revision() {
    assert_eq!(push_preflight(Some(4), RemoteRevision::Rev(4)).unwrap(), 5);
    assert_eq!(push_preflight(None, RemoteRevision::Rev(0)).unwrap(), 1);
    let err = push_preflight(Some(4), RemoteRevision::Rev(5)).unwrap_err();
    assert!(err.contains("远端 rev 5，本地记录 rev 4"), "{err}");
    assert!(push_preflight(Some(1), RemoteRevision::Missing).unwrap_err().contains("Gist 不存在"));
    let err = push_preflight(Some(1), RemoteRevision::Unreadable("eof".into())).unwrap_err();
    assert!(err.contains("解析失败: eof"), "{err}");
    assert_eq!(pushed_message(5), "已推送（rev 5）");
}

#[test]
fn conflict_choice_and_password_checks() {
    assert_eq!(conflict_choice("local").unwrap(), ConflictSide::Local);
    assert_eq!(conflict_choice("remote").unwrap(), ConflictSide::Remote);
    assert_eq!(conflict_choice("both").unwrap_err(), "无效的冲突选择: both");
    assert_eq!(require_master_password("  ").unwrap_err(), "主密码不能为空");
    assert!(require_master_password("pw").is_ok());
    assert_eq!(check_reset_passwords("", " ").unwrap_err(), "新主密码不能为空");
    assert_eq!(check_reset_passwords(" ", "new").unwrap_err(), "旧主密码不能为空");
    assert!(check_reset_passwords("old", "new").is_ok());
}

#[test]
fn setup_plan_cases() {
    match setup_plan(&Some("0123456789".into()), Some("x".into())) {
        SetupPlan::AlreadyConfigured { gist_id_masked } => assert_eq!(gist_id_masked, "...456789"),
        p => panic!("{p:?}"),
    }
    match setup_plan(&None, Some("abc".into())) {
        SetupPlan::PullExisting { gist_id } => assert_eq!(gist_id, "abc"),
        p => panic!("{p:?}"),
    }
    assert!(matches!(setup_plan(&None, Some("  ".into())), SetupPlan::CreateNew));
    assert!(matches!(setup_plan(&None, None), SetupPlan::CreateNew));
}

#[test]
fn credential_ids_are_distinct_and_non_blank() {
    let assets = vec![
        asset(Some("c1"), Some(" "), Some("k1")),
        asset(Some("c1"), Some("p2"), None),
        asset(None, Some("k1"), Some("c3")),
    ];
    assert_eq!(needed_credential_ids(&assets), vec!["c1", "k1", "p2", "c3"]);
}

#[test]
fn collect_outcome_tallies_reads() {
    let mut o = CollectOutcome::new();
    o.record("a".into(), Ok(Some("s".into())));
    o.record("b".into(), Ok(Some(String::new())));
    o.record("c".into(), Ok(None));
    o.record("d".into(), Err("locked".into()));
    assert_eq!(o.items.len(), 1);
    assert_eq!(o.missing, vec!["c".to_string()]);
    assert!(o.has_failures());
    assert_eq!(o.failure_summary(), "b: 凭据文件为空；d: locked");
    let err = o.push_abort_error().unwrap();
    assert!(err.starts_with("同步已中止：2 项凭据读取失败（b: 凭据文件为空；d: locked）。"), "{err}");
    assert!(CollectOutcome::new().push_abort_error().is_none());
}

#[test]
fn restore_tally_counts_writes() {
    let mut t = RestoreTally::new();
    let empty = SyncCredentialItem { id: " ".into(), secret: "x".into() };
    assert!(!restorable(&empty));
    assert!(restorable(&SyncCredentialItem { id: "a".into(), secret: "x".into() }));
    t.record_empty(empty.id.clone());
    t.record_save("a".into(), Ok(()));
    t.record_save("b".into(), Err("disk".into()));
    assert_eq!(t.restored, 1);
    assert_eq!(t.failed.len(), 2);
    assert_eq!(t.failed[0].1, "载荷中该凭据为空");
}

#[test]
fn status_shows_changes_only_when_configured() {
    let s = sync_status_result(&None, None, false, true, true, None, false);
    assert!(!s.configured);
    assert!(!s.local_has_changes);
    let s = sync_status_result(&Some("0123456789".into()), None, true, false, false, Some(1), true);
    assert!(s.configured);
    assert_eq!(s.gist_id_masked.as_deref(), Some("...456789"));
    assert!(s.local_has_changes);
    assert!(s.recovery_password_saved);
}
