use myshelltool::editor::read_only_of;
use myshelltool::remote_entry::SftpDirEntry;
use myshelltool::sftp_rules::{directory_listing, file_meta, lists_default_dir};
use myshelltool::ssh_session::{connect_failed, connected, pty_size, session_infos, SessionMeta};
use myshelltool::sync_plan::{
    auto_sync_result, credentials_failed, pull_answer, push_result, setup_created, RestoreTally,
    SyncDecision, SyncPullResult, SyncSetupResult,
};

#[test]
fn connect_results_and_terminal_size() {
    let f = connect_failed("refused".into());
    assert!(!f.connected && f.session_id.is_empty() && f.error.as_deref() == Some("refused"));
    let c = connected("s1".into());
    assert!(c.connected && c.error.is_none());
    assert_eq!(pty_size(0, 0), (80, 24));
    assert_eq!(pty_size(120, 40), (120, 40));
}

#[test]
fn session_list_keeps_metadata() {
    let infos = session_infos(vec![("s1".into(), SessionMeta { host: "h".into(), port: 22, username: "u".into() })]);
    assert_eq!(infos.len(), 1);
    assert_eq!(infos[0].session_id, "s1");
    assert_eq!(infos[0].port, 22);
}

fn raw(name: &str, is_dir: bool) -> SftpDirEntry {
    SftpDirEntry {
        name: name.into(),
        path: format!("/r/{name}"),
        is_dir,
        is_symlink: false,
        size: 1,
        modified: "0".into(),
        permissions: Some(0o100644),
        user: None,
        group: None,
    }
}

#[test]
fn directory_listing_is_sorted() {
    let l = directory_listing("h".into(), "/r".into(), vec![raw("b", false), raw("z", true), raw("a", false)]);
    let names: Vec<&str> = l.entries.iter().map(|e| e.name.as_str()).collect();
    assert_eq!(names, vec!["z", "a", "b"]);
    assert_eq!(l.entries[1].permissions.as_deref(), Some("0644"));
    assert!(lists_default_dir("  "));
    assert!(!lists_default_dir("/r"));
    let m = file_meta(false, 7, "1".into());
    assert!(m.exists && !m.is_dir && m.size == 7);
}

#[test]
fn read_only_from_mode() {
    assert_eq!(read_only_of(Some(0o100444)), Some(true));
    assert_eq!(read_only_of(Some(0o100644)), Some(false));
    assert_eq!(read_only_of(None), None);
}

#[test]
fn sync_command_results() {
    let p = push_result(4);
    assert!(p.success && p.new_rev == Some(4) && p.message == "已推送（rev 4）");
    assert_eq!(auto_sync_result(false).message, "自动同步已关闭（会话密钥已删除）");
    assert!(auto_sync_result(true).enabled);
    match setup_created("0123456789") {
        SyncSetupResult::Created { gist_id_masked } => assert_eq!(gist_id_masked, "...456789"),
        r => panic!("{r:?}"),
    }
    assert!(matches!(pull_answer(SyncDecision::NoChange), Some(SyncPullResult::NoChange)));
    assert!(matches!(pull_answer(SyncDecision::PushLocal), Some(SyncPullResult::LocalNewer)));
    assert!(pull_answer(SyncDecision::Conflict).is_none());
    let mut t = RestoreTally::new();
    t.record_save("a".into(), Err("x".into()));
    assert_eq!(credentials_failed(3, Ok(t)), 1);
    assert_eq!(credentials_failed(3, Err("store".into())), 3);
}
