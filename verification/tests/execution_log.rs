use myshelltool::execution_log::{appended_store, list_entries, LoadOutcome};
use myshelltool::execution_log::{
    maybe_cleanup, summarize_output, ExecutionLogEntry, ExecutionLogStore, AUTO_APPROVED,
    MAX_ENTRIES, OUTCOME_OK,
};

fn sample_entry(ts: u64, id: &str) -> ExecutionLogEntry {
    ExecutionLogEntry {
        id: id.to_string(),
        timestamp_ms: ts,
        level: "minimal".to_string(),
        tool: "ssh_exec".to_string(),
        asset_id: "a1".to_string(),
        asset_name: "测试".to_string(),
        host: "127.0.0.1".to_string(),
        port: 22,
        username: "root".to_string(),
        command: "echo hi".to_string(),
        intent: "测试".to_string(),
        decision: AUTO_APPROVED.to_string(),
        outcome: OUTCOME_OK.to_string(),
        output_summary: "hi".to_string(),
        risk: "destructive".to_string(),
        policy: "shell_exec".to_string(),
        duration_ms: 12,
        session_source: "new".to_string(),
        scope_result: "allowed".to_string(),
    }
}

#[test]
fn summarize_keeps_head_and_tail() {
    let long = "A".repeat(300) + "B".repeat(300).as_str();
    let s = summarize_output(&long);
    assert!(s.contains("…[截断]…"));
    assert!(s.starts_with("A"));
    assert!(s.ends_with("B"));
    assert_eq!(s.chars().count(), 250 + "…[截断]…".chars().count() + 250);
}

#[test]
fn summarize_short_text_untouched() {
    assert_eq!(summarize_output("hello"), "hello");
}

#[test]
fn cleanup_drops_expired_and_truncates_count() {
    let mut store = ExecutionLogStore {
        last_cleanup_ms: 0,
        entries: (0..1200).map(|i| sample_entry(i, &format!("id{i:04}"))).collect(),
    };
    maybe_cleanup(&mut store, 30 * 24 * 60 * 60 * 1000 + 1000);
    assert_eq!(store.entries.len(), MAX_ENTRIES);
    assert_eq!(store.entries.first().unwrap().timestamp_ms, 200);
    assert_eq!(store.entries.last().unwrap().timestamp_ms, 1199);
    assert!(store.last_cleanup_ms > 0);
}

#[test]
fn cleanup_respects_interval() {
    let mut store = ExecutionLogStore::default();
    store.last_cleanup_ms = 10_000;
    store.entries.push(sample_entry(1, "x"));
    maybe_cleanup(&mut store, 10_000 + 1000);
    assert_eq!(store.entries.len(), 1);
    assert_eq!(store.last_cleanup_ms, 10_000);
}

#[test]
fn a4_fields_contain_no_secret_by_design() {
    let entry = sample_entry(1, "x");
    for field in [&entry.risk, &entry.policy, &entry.session_source] {
        let lower = field.to_lowercase();
        assert!(
            !lower.contains("password") && !lower.contains("secret") && !lower.contains("token"),
            "A4 字段出现凭据类词形：{field}"
        );
    }
}

#[test]
fn appended_entry_is_kept_as_newest() {
    const DAY: u64 = 24 * 60 * 60 * 1000;
    let now = 400 * DAY + 5;
    let old = ExecutionLogStore {
        last_cleanup_ms: 0,
        entries: vec![sample_entry(now - 40 * DAY, "old"), sample_entry(now - DAY, "recent")],
    };
    let s = appended_store(LoadOutcome::Loaded(old), sample_entry(now, "new")).unwrap();
    let ids: Vec<&str> = s.entries.iter().map(|e| e.id.as_str()).collect();
    assert_eq!(ids, vec!["recent", "new"]);
    assert_eq!(s.last_cleanup_ms, now);
    let fresh = appended_store(LoadOutcome::Fresh, sample_entry(now, "first")).unwrap();
    assert_eq!(fresh.entries.last().unwrap().id, "first");
    assert!(appended_store(LoadOutcome::Unreadable("bad".into()), sample_entry(now, "x")).is_none());
    let listed = list_entries(LoadOutcome::Loaded(s), 10);
    assert_eq!(listed[0].id, "new");
}
