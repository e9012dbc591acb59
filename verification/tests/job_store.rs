use myshelltool::job_store::{JobStatus, JobStore, MAX_JOBS};

#[test]
fn lifecycle_running_to_done() {
    let mut store = JobStore::new();
    let id = store.create("asset-1");
    assert_eq!(store.snapshot(&id).unwrap().status, JobStatus::Running);
    store.append_output(&id, b"hello ");
    store.append_output(&id, b"world");
    let notified = store.settle(&id, JobStatus::Done, Some(0), None);
    let snap = store.snapshot(&id).unwrap();
    assert_eq!(snap.status, JobStatus::Done);
    assert_eq!(snap.exit_code, Some(0));
    assert_eq!(snap.output_bytes, 11);
    assert!(notified, "终态必须触发 done 通知");
}

#[test]
fn output_paging_and_dropped_head_reported() {
    let mut store = JobStore::new();
    let id = store.create("a");
    store.append_output(&id, &vec![b'x'; 3000]);
    let (chunk, total, eof, _) = store.read_output(&id, 0, 1000).unwrap();
    assert_eq!(chunk.len(), 1000);
    assert_eq!(total, 3000);
    assert!(!eof);
    let (_, _, eof2, _) = store.read_output(&id, 2000, 5000).unwrap();
    assert!(eof2);
}

#[test]
fn cancel_unknown_or_terminal_returns_false() {
    let mut store = JobStore::new();
    assert!(!store.request_cancel("no-such-job"));
    let id = store.create("a");
    assert!(store.request_cancel(&id));
    store.settle(&id, JobStatus::Cancelled, None, None);
    assert!(!store.request_cancel(&id), "终态后取消应拒绝（幂等）");
}

#[test]
fn job_count_bounded() {
    let mut store = JobStore::new();
    for i in 0..(MAX_JOBS + 5) {
        let id = store.create(&format!("a{i}"));
        store.settle(&id, JobStatus::Done, Some(0), None);
    }
    assert!(store.len() <= MAX_JOBS, "条数越界: {}", store.len());
}

#[test]
fn done_notification_is_given_once() {
    let mut store = JobStore::new();
    let id = store.create("a");
    assert!(store.settle(&id, JobStatus::Failed, Some(1), Some("boom".to_string())));
    assert!(!store.settle(&id, JobStatus::Done, Some(0), None));
    assert!(!store.settle("no-such-job", JobStatus::Done, None, None));
}

#[test]
fn dropped_head_is_counted_beyond_the_output_limit() {
    let mut store = JobStore::new();
    let id = store.create("a");
    let limit = myshelltool::job_store::JOB_OUTPUT_MAX_BYTES;
    store.append_output(&id, &vec![b'a'; limit]);
    store.append_output(&id, b"tail");
    let snap = store.snapshot(&id).unwrap();
    assert_eq!(snap.output_bytes as usize, limit);
    assert_eq!(snap.dropped_head_bytes, 4);
    let (chunk, total, eof, dropped) = store.read_output(&id, total_minus(limit, 4), 10).unwrap();
    assert_eq!(chunk, "tail");
    assert_eq!(total as usize, limit);
    assert!(eof);
    assert_eq!(dropped, 4);
}

fn total_minus(total: usize, n: usize) -> u64 {
    (total - n) as u64
}

fn output(code: Option<u32>, out: &str, err: &str) -> myshelltool::headless::ExecOnceOutput {
    myshelltool::headless::ExecOnceOutput { exit_code: code, stdout: out.into(), stderr: err.into() }
}

#[test]
fn finished_command_is_done_with_its_output() {
    let mut store = JobStore::new();
    let id = store.create("a");
    assert!(store.finish_job(&id, Ok(output(Some(3), "out", "warn"))));
    let snap = store.snapshot(&id).unwrap();
    assert_eq!(snap.status, JobStatus::Done);
    assert_eq!(snap.exit_code, Some(3));
    let (text, _, _, _) = store.read_output(&id, 0, 1000).unwrap();
    assert_eq!(text, "out\n--- stderr ---\nwarn");
}

#[test]
fn cancelled_command_settles_cancelled_either_way() {
    let mut store = JobStore::new();
    let id = store.create("a");
    assert!(store.request_cancel(&id));
    store.finish_job(&id, Ok(output(None, "partial", "")));
    let snap = store.snapshot(&id).unwrap();
    assert_eq!(snap.status, JobStatus::Cancelled);
    assert_eq!(snap.exit_code, None);
    assert_eq!(snap.output_bytes, 7);

    let id2 = store.create("b");
    store.request_cancel(&id2);
    store.finish_job(&id2, Err("channel closed".into()));
    assert_eq!(store.snapshot(&id2).unwrap().status, JobStatus::Cancelled);
}

#[test]
fn failures_keep_their_reason() {
    let mut store = JobStore::new();
    let id = store.create("a");
    store.finish_job(&id, Err("exec failed".into()));
    let snap = store.snapshot(&id).unwrap();
    assert_eq!(snap.status, JobStatus::Failed);
    assert_eq!(snap.error.as_deref(), Some("exec failed"));
    let id2 = store.create("b");
    assert!(store.fail_to_connect(&id2, "timeout"));
    assert_eq!(store.snapshot(&id2).unwrap().error.as_deref(), Some("连接失败: timeout"));
}

#[test]
fn at_most_max_jobs_of_the_returned_ids_resolve() {
    let mut store = JobStore::new();
    let mut ids = Vec::new();
    for i in 0..(MAX_JOBS + 5) {
        let id = store.create(&format!("a{i}"));
        store.settle(&id, JobStatus::Done, Some(0), None);
        ids.push(id);
    }
    let last = ids.last().unwrap().clone();
    assert!(store.snapshot(&last).is_some());
    let resolving = ids.iter().filter(|id| store.snapshot(id).is_some()).count();
    assert!(resolving <= MAX_JOBS);
    let mut sorted = ids.clone();
    sorted.sort();
    sorted.dedup();
    assert_eq!(sorted.len(), ids.len());
}
