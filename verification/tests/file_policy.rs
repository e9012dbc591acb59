use myshelltool::file_policy::{
    is_catastrophic_remote_removal, is_sensitive_remote_path, normalize_remote_path,
};

#[test]
fn test_normalize_remote_path() {
    assert_eq!(normalize_remote_path("/var/log/../log/syslog"), "/var/log/syslog");
    assert_eq!(normalize_remote_path("/home/user/../../etc/shadow"), "/etc/shadow");
    assert_eq!(normalize_remote_path("////var////log///"), "/var/log");
    assert_eq!(normalize_remote_path("/../../../"), "/");
    assert_eq!(normalize_remote_path("a/b/../c"), "a/c");
    assert_eq!(normalize_remote_path(""), ".");
}

#[test]
fn test_sensitive_paths() {
    assert!(is_sensitive_remote_path("/etc/shadow"));
    assert!(is_sensitive_remote_path("/home/admin/../../etc/shadow"));
    assert!(is_sensitive_remote_path("/root/.ssh/id_rsa"));
    assert!(is_sensitive_remote_path("/home/deploy/.ssh/id_ed25519"));
    assert!(is_sensitive_remote_path("/var/www/site/.env"));
    assert!(is_sensitive_remote_path("/opt/certs/server.key"));
    assert!(is_sensitive_remote_path("/opt/certs/client.p12"));

    assert!(!is_sensitive_remote_path("/var/log/nginx/access.log"));
    assert!(!is_sensitive_remote_path("/home/user/.ssh/known_hosts"));
    assert!(!is_sensitive_remote_path("/home/user/.ssh/authorized_keys"));
    assert!(!is_sensitive_remote_path("/home/user/.ssh/id_rsa.pub"));
    assert!(!is_sensitive_remote_path("/etc/nginx/nginx.conf"));

    assert!(is_sensitive_remote_path("./.ssh/id_rsa"));
    assert!(is_sensitive_remote_path(".ssh/id_ed25519"));
    assert!(is_sensitive_remote_path("./.env"));
    assert!(is_sensitive_remote_path("./certs/server.key"));
    assert!(!is_sensitive_remote_path("./.ssh/id_rsa.pub"));
    assert!(!is_sensitive_remote_path("./.ssh/known_hosts"));
}

#[test]
fn test_catastrophic_removal() {
    assert!(is_catastrophic_remote_removal("/"));
    assert!(is_catastrophic_remote_removal("/etc"));
    assert!(is_catastrophic_remote_removal("/etc/"));
    assert!(is_catastrophic_remote_removal("/var/../usr"));
    assert!(!is_catastrophic_remote_removal("/tmp/test.txt"));
    assert!(!is_catastrophic_remote_removal("/var/log/test"));
}

#[test]
fn normal_form_law_on_samples() {
    for raw in ["a/./b/../c//d/", "\\var\\log\\..\\tmp", "../../x", ".", "", "/", "//a//", "a\\.\\b", "./.ssh/id_rsa"] {
        let r = normalize_remote_path(raw);
        assert_eq!(normalize_remote_path(&r), r);
        assert!(!r.contains('\\') && !r.contains("//"));
        assert!(r == "." || r.split('/').all(|s| s != "." && s != ".."));
        assert!(r == "/" || !r.ends_with('/'));
        assert_eq!(r.starts_with('/'), raw.starts_with('/') || raw.starts_with('\\'));
    }
}

#[test]
fn sensitivity_ignores_form_case_and_root() {
    for p in ["etc/shadow", ".ssh/id_rsa", "home/u/.ENV", "opt/x.pem", "var/log/a.log", "a/../etc/sudoers", ""] {
        let s = is_sensitive_remote_path(p);
        assert_eq!(is_sensitive_remote_path(&normalize_remote_path(p)), s);
        assert_eq!(is_sensitive_remote_path(&p.to_ascii_uppercase()), s);
        assert_eq!(is_sensitive_remote_path(&format!("/{p}")), s);
    }
}
