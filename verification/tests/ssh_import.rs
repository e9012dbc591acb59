use myshelltool::session_pool::{AuthMethod, ConnectionAsset, ConnectionStatus};
use myshelltool::ssh_import::{
    expand_home_path, import_preview, resolve_config_path, SshConfigHost,
};

fn asset(id: &str, host: &str, port: u16, user: &str) -> ConnectionAsset {
    ConnectionAsset {
        id: id.into(),
        name: format!("name-{id}"),
        host: host.into(),
        port,
        username: user.into(),
        auth_method: AuthMethod::Password,
        private_key_path: None,
        group: "g".into(),
        tags: vec![],
        status: ConnectionStatus::Idle,
        last_connected: String::new(),
        credential_id: None,
        passphrase_credential_id: None,
        private_key_credential_id: None,
        jump_host: None,
        connect_timeout_secs: None,
        keepalive_interval_secs: None,
    }
}

fn host(alias: &str, h: &str, port: u16, user: Option<&str>) -> SshConfigHost {
    SshConfigHost {
        alias: alias.into(),
        host: h.into(),
        port,
        username: user.map(|u| u.to_string()),
        identity_file: Some("~/.ssh/id_ed25519".into()),
        proxy_jump: None,
    }
}

#[test]
fn home_prefix_is_expanded() {
    let home = Some("C:\\Users\\me".to_string());
    assert_eq!(expand_home_path("~/.ssh/config", &home).unwrap(), "C:\\Users\\me/.ssh/config");
    assert_eq!(expand_home_path("/etc/ssh/ssh_config", &None).unwrap(), "/etc/ssh/ssh_config");
    assert_eq!(expand_home_path("~user/x", &None).unwrap(), "~user/x");
}

#[test]
fn missing_home_is_an_error_not_the_working_directory() {
    let err = expand_home_path("~/.ssh/id_rsa", &None).unwrap_err();
    assert!(err.contains("USERPROFILE/HOME 均未设置"), "{err}");
}

#[test]
fn config_path_defaults_to_the_user_config() {
    let home = Some("/home/me".to_string());
    assert_eq!(resolve_config_path(None, &home).unwrap(), "/home/me/.ssh/config");
    assert_eq!(resolve_config_path(Some("/tmp/cfg".into()), &None).unwrap(), "/tmp/cfg");
    let err = resolve_config_path(None, &None).unwrap_err();
    assert!(err.starts_with("解析配置路径失败（~/.ssh/config）: "), "{err}");
}

#[test]
fn preview_marks_conflicts_by_host_port_and_user() {
    let assets = vec![asset("a1", "10.0.0.1", 22, "root"), asset("a2", "10.0.0.2", 2222, "me")];
    let hosts = vec![
        host("web", "10.0.0.1", 22, Some("root")),
        host("db", "10.0.0.2", 2222, None),
        host("other", "10.0.0.1", 22, Some("admin")),
    ];
    let p = import_preview("/home/me/.ssh/config".into(), hosts, &assets, "me");
    assert_eq!(p.source_path, "/home/me/.ssh/config");
    assert_eq!(p.candidates.len(), 3);
    assert_eq!(p.candidates[0].conflict_existing_id.as_deref(), Some("a1"));
    assert_eq!(p.candidates[0].conflict_existing_name.as_deref(), Some("name-a1"));
    assert_eq!(p.candidates[1].username.as_deref(), Some("me"));
    assert_eq!(p.candidates[1].conflict_existing_id.as_deref(), Some("a2"));
    assert_eq!(p.candidates[2].conflict_existing_id, None);
    assert_eq!(p.candidates[2].alias, "other");
    assert_eq!(p.candidates[2].identity_file.as_deref(), Some("~/.ssh/id_ed25519"));
}
