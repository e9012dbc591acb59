use myshelltool::tool_text::list_sessions_text;
use myshelltool::headless::ExecOnceOutput;
use myshelltool::job_store::{JobSnapshot, JobStatus};
use myshelltool::output_cache::OutputCache;
use myshelltool::tool_text::{
    check_fanout_size, denied_target, exec_body_text, exec_reply_text, failed_target,
    job_output_text, job_status_text, page_limit, ran_target, read_output_text, summarize_counts,
    FanoutOutcome,
};

fn out(code: Option<u32>, stdout: &str, stderr: &str) -> ExecOnceOutput {
    ExecOnceOutput { exit_code: code, stdout: stdout.into(), stderr: stderr.into() }
}

#[test]
fn exec_body_sections() {
    let s = |v: Vec<char>| v.into_iter().collect::<String>();
    assert_eq!(s(exec_body_text("out", "", "none")), "out");
    assert_eq!(s(exec_body_text("", "", "none")), "none");
    assert_eq!(s(exec_body_text("", "bad", "none")), "none\n--- stderr ---\nbad");
    assert_eq!(s(exec_body_text("o", "e", "")), "o\n--- stderr ---\ne");
}

#[test]
fn short_reply_is_not_cached() {
    let mut cache = OutputCache::new();
    assert_eq!(exec_reply_text(&out(Some(0), "hi", ""), &mut cache), "exit_code=0\nhi");
    assert_eq!(exec_reply_text(&out(None, "", "oops"), &mut cache), "exit_code=unknown\n（命令无标准输出）\n--- stderr ---\noops");
    assert_eq!(cache.len(), 0);
}

#[test]
fn long_reply_is_cut_and_cached_whole() {
    let mut cache = OutputCache::new();
    let body: String = "a".repeat(9000) + &"b".repeat(9000);
    let r = exec_reply_text(&out(Some(2), &body, ""), &mut cache);
    assert!(r.starts_with("exit_code=2\n[输出已截断：完整 18000 字符。原文可用 read_output 工具取回（cursor=\""));
    let cursor = r.split("cursor=\"").nth(1).unwrap().split('"').next().unwrap().to_string();
    assert!(r.ends_with(&format!("{}…[截断]…{}", "a".repeat(8000), "b".repeat(8000))));
    assert_eq!(cache.len(), 1);
    let (chunk, total, eof, dropped) = cache.read(&cursor, 0, 1 << 20).unwrap();
    assert_eq!(chunk, body);
    assert_eq!((total, eof, dropped), (18000, true, 0));
}

#[test]
fn page_limits() {
    assert_eq!(page_limit(None), 65536);
    assert_eq!(page_limit(Some(10)), 10);
    assert_eq!(page_limit(Some(u64::MAX)), 1048576);
}

#[test]
fn page_headers() {
    assert_eq!(
        read_output_text("c1", 0, "中a", 10, false, 0),
        "[read_output cursor=c1：总 10 字节，本段 offset=0 起 4 字节，未完，继续传 offset 取下一段，下一段 offset=4]\n中a"
    );
    assert_eq!(
        read_output_text("c1", 4, "xyz", 7, true, 5),
        "[read_output cursor=c1：总 7 字节，本段 offset=4 起 3 字节，已到末尾（EOF）]\n[注：该输出开头 5 字节因超出单条缓存上限（8 MiB）未保留]\nxyz"
    );
    assert_eq!(
        job_output_text(2, "ab", 4, true, 0),
        "[job_output：总 4 字节，本段 offset=2 起 2 字节，已到末尾（EOF）]\nab"
    );
    assert_eq!(
        job_output_text(0, "", 9, false, 3),
        "[job_output：总 9 字节，本段 offset=0 起 0 字节，未完]\n[注：该输出开头 3 字节因超单 job 上限（8 MiB）未保留]\n"
    );
}

#[test]
fn job_status_lines() {
    let s = JobSnapshot {
        asset_id: "a1".into(),
        status: JobStatus::Failed,
        exit_code: None,
        error: Some("boom".into()),
        output_bytes: 12,
        dropped_head_bytes: 0,
        created_ms: 100,
        finished_ms: Some(200),
        cancel_requested: false,
    };
    assert_eq!(
        job_status_text("j1", &s),
        "job_id=j1\nasset_id=a1\nstatus=failed\nexit_code=unknown\nerror=boom\noutput_bytes=12\ndropped_head_bytes=0\ncreated_ms=100\nfinished_ms=200\ncancel_requested=false"
    );
}

#[test]
fn fanout_size_bounds() {
    assert_eq!(check_fanout_size(0).unwrap_err(), "asset_ids 不能为空");
    assert!(check_fanout_size(1).is_ok() && check_fanout_size(64).is_ok());
    assert_eq!(
        check_fanout_size(65).unwrap_err(),
        "单次批量上限 64 台（收到 65）——更大批量请分批执行，防 MaxStartups 与输出爆上下文"
    );
}

#[test]
fn fanout_targets_and_counts() {
    let long = "x".repeat(20000);
    let targets = vec![
        ran_target("a".into(), "A".into(), &out(Some(0), "ok", "warn"), "gui"),
        ran_target("b".into(), "B".into(), &out(Some(1), &long, ""), "pool"),
        denied_target("c".into(), "C".into(), "denied_not_in_scope"),
        denied_target("d".into(), "D".into(), "deny_all"),
        failed_target("e".into(), "E".into(), "unknown asset".into()),
    ];
    assert_eq!(targets[0].output, "ok\n--- stderr ---\nwarn");
    assert_eq!(targets[0].session_source.as_deref(), Some("gui"));
    assert!(targets[1].truncated);
    assert_eq!(targets[1].output.chars().count(), 16000 + "…[截断]…".chars().count());
    assert_eq!(targets[4].error.as_deref(), Some("unknown asset"));
    let s = summarize_counts(&FanoutOutcome { targets });
    assert_eq!((s.total, s.ok, s.denied, s.errors, s.truncated), (5, 2, 2, 1, 1));
}

#[test]
fn list_sessions_replies() {
    assert_eq!(list_sessions_text(None), "当前处于 Headless/独立运行模式。建议直接使用基于 asset_id 的远程工具执行操作。");
    assert_eq!(
        list_sessions_text(Some(vec![])),
        "当前客户端暂无活动 SSH 会话（可在 GUI 中连接主机，或直接使用基于 asset_id 的各项远程工具）。"
    );
    assert_eq!(
        list_sessions_text(Some(vec!["s1".into(), "s2".into()])),
        "当前活动 SSH 会话列表（共 2 个）：\n- session_id: s1\n- session_id: s2"
    );
}
