use myshelltool::output_cache::{OutputCache, MAX_CACHED, MAX_ENTRY_BYTES};

#[test]
fn store_and_read_roundtrip_with_paging() {
    let mut cache = OutputCache::new();
    let data = vec![b'a'; 1000];
    let cursor = cache.store(data);
    let (chunk, total, eof, dropped) = cache.read(&cursor, 0, 400).unwrap();
    assert_eq!(chunk.len(), 400);
    assert_eq!(total, 1000);
    assert!(!eof);
    assert_eq!(dropped, 0);
    let (_, _, eof2, _) = cache.read(&cursor, 600, 400).unwrap();
    assert!(eof2);
    let (chunk3, _, eof3, _) = cache.read(&cursor, 5000, 100).unwrap();
    assert_eq!(chunk3, "");
    assert!(eof3);
}

#[test]
fn oversize_entry_keeps_tail_and_reports_dropped() {
    let mut cache = OutputCache::new();
    let data = vec![b'x'; MAX_ENTRY_BYTES + 100];
    let cursor = cache.store(data);
    let (chunk, total, eof, dropped) = cache.read(&cursor, 0, 10).unwrap();
    assert_eq!(dropped, 100, "应如实报告被截头字节数");
    assert_eq!(total as usize, MAX_ENTRY_BYTES);
    assert_eq!(chunk.len(), 10);
    assert!(!eof);
}

#[test]
fn unknown_cursor_is_error_not_empty() {
    let mut cache = OutputCache::new();
    let err = cache.read("no-such-cursor", 0, 10).unwrap_err();
    assert!(err.contains("不存在"), "必须明确报错而非返回空段: {err}");
}

#[test]
fn entry_count_is_bounded() {
    let mut cache = OutputCache::new();
    for i in 0..(MAX_CACHED + 5) {
        let c = cache.store(vec![i as u8; 16]);
        assert!(!c.is_empty());
    }
    assert!(cache.len() <= MAX_CACHED, "全局条数越界: {}", cache.len());
}

#[test]
fn expired_entries_are_dropped_on_store() {
    let mut cache = OutputCache::new();
    cache.store_at("old".to_string(), b"x".to_vec(), 1_000);
    cache.store_at("new".to_string(), b"y".to_vec(), 1_000 + 600_000);
    assert_eq!(cache.len(), 1);
    assert!(cache.read("old", 0, 10).is_err());
    assert_eq!(cache.read("new", 0, 10).unwrap().0, "y");
}
