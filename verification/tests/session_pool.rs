use myshelltool::session_pool::{
    AuthMethod, AuthSnapshot, ConnectionAsset, ConnectionStatus, SessionPool, IDLE_TTL_MS,
    MAX_CONNECTIONS,
};

fn asset() -> ConnectionAsset {
    ConnectionAsset {
        id: "a".into(),
        name: "n".into(),
        host: "h".into(),
        port: 22,
        username: "u".into(),
        auth_method: AuthMethod::Password,
        private_key_path: None,
        group: "g".into(),
        tags: vec![],
        status: ConnectionStatus::Idle,
        last_connected: String::new(),
        credential_id: Some("cred-1".into()),
        passphrase_credential_id: None,
        private_key_credential_id: None,
        jump_host: None,
        connect_timeout_secs: None,
        keepalive_interval_secs: None,
    }
}

#[test]
fn auth_snapshot_detects_credential_change() {
    let mut asset = asset();
    let snap1 = AuthSnapshot::from_asset(&asset);
    asset.credential_id = Some("cred-2".into());
    let snap2 = AuthSnapshot::from_asset(&asset);
    assert_ne!(snap1, snap2);
    asset.private_key_path = Some("~/.ssh/new_key".into());
    let snap3 = AuthSnapshot::from_asset(&asset);
    assert_ne!(snap2, snap3);
    assert!(!snap2.same_as(&snap3));
    assert!(snap3.same_as(&snap3.clone()));
}

#[test]
fn pooled_connection_is_reused_with_same_credentials() {
    let auth = AuthSnapshot::from_asset(&asset());
    let mut pool: SessionPool<u32> = SessionPool::new();
    pool.put_at("a".to_string(), auth.clone(), 7, 1_000);
    assert_eq!(pool.get_at("a", &auth, 1_000 + IDLE_TTL_MS - 1), Some(&7));
    // the lookup renewed it
    assert_eq!(pool.get_at("a", &auth, 1_000 + 2 * IDLE_TTL_MS - 2), Some(&7));
}

#[test]
fn idle_connection_is_dropped() {
    let auth = AuthSnapshot::default();
    let mut pool: SessionPool<u32> = SessionPool::new();
    pool.put_at("a".to_string(), auth.clone(), 7, 1_000);
    assert_eq!(pool.get_at("a", &auth, 1_000 + IDLE_TTL_MS), None);
    assert_eq!(pool.len(), 0);
}

#[test]
fn changed_credentials_invalidate_the_connection() {
    let mut a = asset();
    let old = AuthSnapshot::from_asset(&a);
    let mut pool: SessionPool<u32> = SessionPool::new();
    pool.put_at("a".to_string(), old.clone(), 7, 1_000);
    a.credential_id = Some("cred-2".into());
    let new = AuthSnapshot::from_asset(&a);
    assert_eq!(pool.get_at("a", &new, 1_001), None);
    assert_eq!(pool.len(), 0);
    assert_eq!(pool.get_at("a", &old, 1_002), None);
}

#[test]
fn capacity_evicts_least_recently_used() {
    let auth = AuthSnapshot::default();
    let mut pool: SessionPool<usize> = SessionPool::new();
    for i in 0..MAX_CONNECTIONS {
        pool.put_at(format!("a{i}"), auth.clone(), i, 100 + i as u64);
    }
    assert_eq!(pool.len(), MAX_CONNECTIONS);
    pool.put_at("new".to_string(), auth.clone(), 99, 200);
    assert_eq!(pool.len(), MAX_CONNECTIONS);
    assert_eq!(pool.get_at("a0", &auth, 201), None);
    assert_eq!(pool.get_at("a1", &auth, 201), Some(&1));
    assert_eq!(pool.get_at("new", &auth, 201), Some(&99));
}

#[test]
fn putting_again_replaces_the_connection() {
    let auth = AuthSnapshot::default();
    let mut pool: SessionPool<u32> = SessionPool::new();
    pool.put_at("a".to_string(), auth.clone(), 1, 10);
    pool.put_at("a".to_string(), auth.clone(), 2, 11);
    assert_eq!(pool.len(), 1);
    assert_eq!(pool.get_at("a", &auth, 12), Some(&2));
}

#[test]
fn invalidate_hands_back_the_connection() {
    let auth = AuthSnapshot::default();
    let mut pool: SessionPool<u32> = SessionPool::new();
    pool.put("a".to_string(), auth.clone(), 5);
    assert_eq!(pool.invalidate_asset("a"), Some(5));
    assert_eq!(pool.invalidate_asset("a"), None);
    assert_eq!(pool.get("a", &auth), None);
}

#[test]
fn auth_method_names() {
    assert_eq!(AuthMethod::Password.name(), "Password");
    assert_eq!(AuthMethod::PrivateKey.name(), "PrivateKey");
    assert_eq!(AuthMethod::Agent.name(), "Agent");
}
