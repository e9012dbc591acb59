use myshelltool::transfer::{download_error, TransferCancels, TransferProgress};

#[test]
fn upload_registration_refusals() {
    let mut t = TransferCancels::new();
    let k = t.register_upload("t1", "s1", true).unwrap();
    assert_eq!(t.register_upload("t1", "s1", true).unwrap_err(), "transfer_id t1 already in progress");
    assert_eq!(t.register_upload("t2", "s9", false).unwrap_err(), "session s9 closed during upload start");
    assert_eq!(t.entries.len(), 1);
    assert!(!t.is_cancelled(k));
}

#[test]
fn download_registration_refuses_duplicates() {
    let mut t = TransferCancels::new();
    t.register_download("d1", "s1").unwrap();
    assert_eq!(t.register_download("d1", "s1").unwrap_err(), "transfer d1 already in flight");
}

#[test]
fn cancel_reaches_the_running_transfer() {
    let mut t = TransferCancels::new();
    let k = t.register_download("d1", "s1").unwrap();
    t.request_cancel("nope");
    assert!(!t.is_cancelled(k));
    t.request_cancel("d1");
    assert!(t.is_cancelled(k));
}

#[test]
fn release_keeps_a_later_registration() {
    let mut t = TransferCancels::new();
    let first = t.register_upload("u", "s", true).unwrap();
    t.remove("u");
    assert!(t.is_cancelled(first));
    let second = t.register_upload("u", "s", true).unwrap();
    assert_ne!(first, second);
    t.release("u", first);
    assert!(!t.is_cancelled(second));
    t.release("u", second);
    assert!(t.is_cancelled(second));
    assert!(t.entries.is_empty());
}

#[test]
fn dropping_a_session_stops_its_transfers_only() {
    let mut t = TransferCancels::new();
    let a = t.register_upload("a", "s1", true).unwrap();
    let b = t.register_download("b", "s2").unwrap();
    let c = t.register_download("c", "s1").unwrap();
    t.drop_session("s1");
    assert!(t.is_cancelled(a) && t.is_cancelled(c));
    assert!(!t.is_cancelled(b));
    assert_eq!(t.entries.len(), 1);
    assert_eq!(t.entries[0].transfer_id, "b");
}

#[test]
fn progress_events_need_bytes_and_time() {
    let mut p = TransferProgress::new();
    assert!(!p.after_chunk(1 << 20, 10));
    assert!(p.after_chunk(0, 200));
    assert_eq!((p.written, p.last_emit_bytes), (1 << 20, 1 << 20));
    assert!(!p.after_chunk(65536, 5000));
    assert_eq!(p.last_emit_bytes, 1 << 20);
}

#[test]
fn cancelled_download_is_marked() {
    assert_eq!(download_error("download cancelled".into()), "[download:cancelled]");
    assert_eq!(download_error("io error".into()), "io error");
}
