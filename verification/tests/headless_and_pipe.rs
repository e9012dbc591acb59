use myshelltool::headless::{
    check_known_host_exact, host_key_verdict, host_port, remember_host_key, ChannelEvent,
    ExecCollector, HeadlessConnectParams, HeadlessSshClient, HostKeyVerdict, KnownHost,
    KnownHostEntry,
};
use myshelltool::pipe::{
    after_exec, after_resolve, bad_request_response, check_reply, exec_request, resolve_request,
    route_request, PipeRequest, PipeResponse, PipeRoute, SessionInfo, SessionTable,
};

fn entry(hex: &str) -> KnownHostEntry {
    KnownHostEntry { key_type: "ssh-ed25519".into(), key_hex: hex.into() }
}

fn known() -> Vec<KnownHost> {
    vec![
        KnownHost { host_port: "a:22".into(), entry: entry("aa") },
        KnownHost { host_port: "b:2222".into(), entry: entry("bb") },
    ]
}

fn params(host: &str, port: u16) -> HeadlessConnectParams {
    HeadlessConnectParams {
        host: host.into(),
        port,
        username: "u".into(),
        password: String::new(),
        credential_id: None,
        auth_method: None,
        private_key_path: None,
        private_key_credential_id: None,
        passphrase: None,
        passphrase_credential_id: None,
        secret_store_dir: "/s".into(),
        known_hosts_path: "/data/known_hosts.json".into(),
        jump_host: None,
        asset_store_path: None,
        connect_timeout_secs: None,
        keepalive_interval_secs: None,
    }
}

#[test]
fn host_port_key() {
    assert_eq!(host_port("10.0.0.1", 22), "10.0.0.1:22");
    assert_eq!(host_port("h", 65535), "h:65535");
}

#[test]
fn host_key_verdicts() {
    let k = known();
    assert!(matches!(host_key_verdict(&k, "a:22", "aa"), HostKeyVerdict::Trusted));
    assert!(matches!(host_key_verdict(&k, "a:22", "cc"), HostKeyVerdict::Changed { expected } if expected == "aa"));
    assert!(matches!(host_key_verdict(&k, "c:22", "aa"), HostKeyVerdict::Unknown));
    assert!(check_known_host_exact(&k, "b:2222", "bb"));
    assert!(!check_known_host_exact(&k, "b:22", "bb"));
}

#[test]
fn headless_client_accepts_only_exact_match() {
    let c = HeadlessSshClient::for_params(&params("b", 2222));
    assert_eq!(c.host_port, "b:2222");
    assert_eq!(c.known_hosts_path, "/data/known_hosts.json");
    assert!(c.check_server_key(&known(), "bb"));
    assert!(!c.check_server_key(&known(), "aa"));
    let unknown = HeadlessSshClient::for_params(&params("z", 22));
    assert!(!unknown.check_server_key(&known(), "aa"));
}

#[test]
fn remembered_key_replaces_or_appends() {
    let mut k = known();
    remember_host_key(&mut k, "a:22".into(), entry("new"));
    assert_eq!(k.len(), 2);
    assert!(check_known_host_exact(&k, "a:22", "new"));
    assert!(!check_known_host_exact(&k, "a:22", "aa"));
    remember_host_key(&mut k, "c:22".into(), entry("cc"));
    assert_eq!(k.len(), 3);
    assert_eq!(k[2].host_port, "c:22");
    assert!(check_known_host_exact(&k, "c:22", "cc"));
}

#[test]
fn exec_collector_gathers_channel_output() {
    let mut c = ExecCollector::new();
    assert!(c.on_event(ChannelEvent::Data(b"hel".to_vec())));
    assert!(c.on_event(ChannelEvent::ExtendedData(b"warn".to_vec())));
    assert!(c.on_event(ChannelEvent::Data(b"lo\xff".to_vec())));
    assert!(c.on_event(ChannelEvent::Eof));
    assert!(c.on_event(ChannelEvent::Other));
    assert!(!c.on_event(ChannelEvent::ExitStatus(3)));
    let out = c.finish();
    assert_eq!(out.exit_code, Some(3));
    assert_eq!(out.stdout, "hello\u{fffd}");
    assert_eq!(out.stderr, "warn");
    let mut closed = ExecCollector::new();
    assert!(!closed.on_event(ChannelEvent::Close));
    assert_eq!(closed.finish().exit_code, None);
}

fn request(method: &str) -> PipeRequest {
    PipeRequest {
        id: "1".into(),
        method: method.into(),
        session_id: Some("s".into()),
        command: None,
        host: Some("h".into()),
        port: None,
        username: Some("u".into()),
    }
}

#[test]
fn pipe_routing() {
    assert!(matches!(route_request(&request("exec")),
        PipeRoute::Exec { session_id, command } if session_id == "s" && command.is_empty()));
    assert!(matches!(route_request(&request("resolve_session")),
        PipeRoute::Resolve { host, port, username } if host == "h" && port == 0 && username == "u"));
    assert!(matches!(route_request(&request("list_sessions")), PipeRoute::List));
    assert!(matches!(route_request(&request("nope")), PipeRoute::Unknown(m) if m == "unknown method: nope"));
    let bad = bad_request_response("EOF");
    assert!(bad.id.is_empty() && !bad.ok && bad.error.as_deref() == Some("bad request json: EOF"));
}

fn info(id: &str, host: &str, port: u16, user: &str) -> SessionInfo {
    SessionInfo { session_id: id.into(), host: host.into(), port, username: user.into() }
}

#[test]
fn session_lookup_prefers_same_account() {
    let t = SessionTable {
        sessions: vec![info("s1", "h", 22, "root"), info("s2", "h", 22, "deploy"), info("s3", "g", 22, "deploy")],
    };
    assert_eq!(t.find_session_by_host("h", 22, "deploy"), Some("s2".to_string()));
    assert_eq!(t.find_session_by_host("h", 22, "other"), Some("s1".to_string()));
    assert_eq!(t.find_session_by_host("h", 2222, "root"), None);
}

#[test]
fn mcp_side_two_steps() {
    let r = resolve_request("h", 22, "u");
    assert_eq!((r.id.as_str(), r.method.as_str(), r.port), ("r1", "resolve_session", Some(22)));
    let e = exec_request("s9".into(), "ls");
    assert_eq!((e.id.as_str(), e.method.as_str(), e.command.as_deref()), ("r2", "exec", Some("ls")));

    assert!(check_reply("r1", PipeResponse::session_ok("r1".into(), "s".into())).is_ok());
    match check_reply("r1", PipeResponse::session_ok("r2".into(), "s".into())) {
        Err(e) => assert_eq!(e, "pipe id mismatch: expected r1, got r2"),
        Ok(_) => panic!("a reply to another request was accepted"),
    }
    assert_eq!(after_resolve(PipeResponse::session_ok("r1".into(), "s".into())).unwrap(), Some("s".to_string()));
    assert_eq!(after_resolve(PipeResponse::error("r1".into(), "none".into())).unwrap(), None);
    assert_eq!(
        after_resolve(PipeResponse::exec_ok("r1".into(), "x".into())).unwrap_err(),
        "unexpected resolve response shape"
    );
    assert_eq!(after_exec(PipeResponse::exec_ok("r2".into(), "out".into())).unwrap(), "out");
    assert_eq!(after_exec(PipeResponse::error("r2".into(), "boom".into())).unwrap_err(), "pipe exec failed: boom");
    assert_eq!(
        after_exec(PipeResponse::list_ok("r2".into(), vec![])).unwrap_err(),
        "unexpected exec response shape"
    );
}
