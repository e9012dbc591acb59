use myshelltool::tunnels::{
    mcp_tunnel_config, new_mcp_tunnel_config, require_remote, tunnel_check, tunnel_kind, TunnelArgs,
    TunnelCheck, TunnelConfig, TunnelKind, TunnelTable,
};

fn config(id: &str, session: &str) -> TunnelConfig {
    TunnelConfig {
        id: id.into(),
        name: format!("t {id}"),
        kind: "local".into(),
        local_addr: "127.0.0.1".into(),
        local_port: 8080,
        remote_addr: "10.0.0.5".into(),
        remote_port: 80,
        session_id: session.into(),
        auto_start: false,
        asset_id: None,
    }
}

fn args() -> TunnelArgs {
    TunnelArgs {
        asset_id: Some("a1".into()),
        kind: Some("remote".into()),
        local_port: Some(9000),
        remote_addr: Some("10.0.0.5".into()),
        remote_port: Some(5432),
        bind_addr: None,
    }
}

#[test]
fn kinds() {
    assert_eq!(tunnel_kind("dynamic").unwrap(), TunnelKind::Dynamic);
    assert_eq!(tunnel_kind("udp").unwrap_err(), "Unknown tunnel kind: udp");
}

#[test]
fn start_checks_in_order() {
    let mut t: TunnelTable<u8> = TunnelTable::new();
    let st = t.create(config("t1", "s1"));
    assert!(!st.active);
    assert_eq!(t.start_check(false, "s9", "t1").unwrap_err(), "SSH session s9 not found");
    assert_eq!(t.start_check(true, "s1", "nope").unwrap_err(), "Tunnel nope not found");
    assert_eq!(t.start_check(true, "s1", "t1").unwrap().remote_port, 80);
    assert_eq!(t.mark_started("t1", 7), None);
    assert_eq!(t.start_check(true, "s1", "t1").unwrap_err(), "Tunnel is already active");
    assert_eq!(t.mark_started("gone", 8), Some(8));
    assert_eq!(t.stop("t1"), Some(7));
    assert!(!t.list()[0].active);
    assert!(t.start_check(true, "s1", "t1").is_ok());
}

#[test]
fn session_cleanup_takes_its_tunnels() {
    let mut t: TunnelTable<u8> = TunnelTable::new();
    t.create(config("a", "s1"));
    t.create(config("b", "s2"));
    t.create(config("c", "s1"));
    t.mark_started("a", 1);
    t.mark_started("b", 2);
    let tasks = t.drop_session("s1");
    assert_eq!(tasks, vec![1]);
    let ids: Vec<String> = t.list().into_iter().map(|s| s.id).collect();
    assert_eq!(ids, vec!["b".to_string()]);
    assert_eq!(t.delete("b"), Some(2));
    assert!(t.list().is_empty());
}

#[test]
fn recreating_keeps_the_running_task() {
    let mut t: TunnelTable<u8> = TunnelTable::new();
    t.create(config("a", "s1"));
    t.mark_started("a", 1);
    t.create(config("a", "s1"));
    assert!(!t.list()[0].active);
    assert_eq!(t.stop("a"), Some(1));
}

#[test]
fn tool_arguments_are_checked_in_order() {
    let mut a = args();
    a.asset_id = Some(String::new());
    assert!(matches!(tunnel_check(a), TunnelCheck::Fail(m) if m == "缺少 asset_id 参数"));
    let mut a = args();
    a.local_port = None;
    assert!(matches!(tunnel_check(a), TunnelCheck::Fail(m) if m == "缺少 localPort 参数"));
    let mut a = args();
    a.kind = Some("udp".into());
    assert!(matches!(tunnel_check(a), TunnelCheck::Refuse(m) if m == "kind 仅支持 local / remote / dynamic（收到 \"udp\"）"));
    let mut a = args();
    a.remote_addr = Some("10.0.0.5 x".into());
    assert!(matches!(tunnel_check(a), TunnelCheck::Refuse(m) if m == "remoteAddr 参数含非法字符"));
    let mut a = args();
    a.kind = None;
    match tunnel_check(a) {
        TunnelCheck::Proceed(req) => {
            assert_eq!(req.kind, "local");
            assert_eq!(req.bind_addr, "127.0.0.1");
            assert!(require_remote(&req).unwrap_err().starts_with("MVP 仅支持 remote 转发"));
        }
        r => panic!("{r:?}"),
    }
    let mut a = args();
    a.local_port = Some(65536 + 22);
    match tunnel_check(a) {
        TunnelCheck::Proceed(req) => assert_eq!(req.local_port, 22),
        r => panic!("{r:?}"),
    }
}

#[test]
fn tool_configuration() {
    let req = match tunnel_check(args()) {
        TunnelCheck::Proceed(r) => r,
        r => panic!("{r:?}"),
    };
    assert!(require_remote(&req).is_ok());
    let c = mcp_tunnel_config(req, 1700000000123);
    assert_eq!(c.id, "mcp-remote-9000-1700000000123");
    assert_eq!(c.name, "MCP remote 9000");
    assert_eq!(c.local_addr, "127.0.0.1");
    assert_eq!(c.session_id, "");
    assert_eq!(c.asset_id.as_deref(), Some("a1"));
    let req = match tunnel_check(args()) {
        TunnelCheck::Proceed(r) => r,
        r => panic!("{r:?}"),
    };
    assert!(new_mcp_tunnel_config(req).id.starts_with("mcp-remote-9000-"));
}
