use myshelltool::config::{level_argument, quarantine_name, McpInterceptLevel};
use myshelltool::execution_log::quarantine_report;
use myshelltool::resources::{known_hosts_body, list_resources, resource_kind, scope_filter, ResourceKind};
use myshelltool::scope::{clean_list, cleaned_scope, McpScope};

fn strings(v: &[&str]) -> Vec<String> {
    v.iter().map(|s| s.to_string()).collect()
}

#[test]
fn scope_lists_are_trimmed_and_deduplicated() {
    assert_eq!(clean_list(strings(&[" web ", "", "db", "web", "  "])), strings(&["web", "db"]));
    let s = cleaned_scope(McpScope {
        allowed_groups: strings(&["a", " a"]),
        allowed_tags: strings(&[" "]),
        denied_asset_ids: strings(&["x", "y", "x"]),
        allow_local_fs: true,
        deny_all: true,
    });
    assert_eq!(s.allowed_groups, strings(&["a"]));
    assert!(s.allowed_tags.is_empty());
    assert_eq!(s.denied_asset_ids, strings(&["x", "y"]));
    assert!(s.allow_local_fs);
    assert!(!s.deny_all);
}

#[test]
fn resources_are_routed_by_uri() {
    let uris: Vec<&str> = list_resources().iter().map(|r| r.uri).collect();
    assert_eq!(
        uris,
        vec!["myshelltool://assets", "myshelltool://sessions", "myshelltool://known-hosts", "myshelltool://mcp/scope"]
    );
    assert_eq!(resource_kind("myshelltool://known-hosts").unwrap(), ResourceKind::KnownHosts);
    assert_eq!(resource_kind("myshelltool://mcp/scope").unwrap(), ResourceKind::Scope);
    assert_eq!(resource_kind("myshelltool://nope").unwrap_err(), "未知资源 URI: myshelltool://nope");
}

#[test]
fn restricted_scope_hides_assets_and_counts_them() {
    let allowed = vec![true, false, true, false];
    let f = scope_filter(&allowed, true);
    assert_eq!(f.visible, vec![0, 2]);
    assert_eq!(f.hidden, 2);
    let f = scope_filter(&allowed, false);
    assert_eq!(f.visible, vec![0, 1, 2, 3]);
    assert_eq!(f.hidden, 0);
}

#[test]
fn missing_known_hosts_is_an_empty_list() {
    assert_eq!(known_hosts_body(None), "{\"hosts\": []}");
    assert_eq!(known_hosts_body(Some("h ssh-ed25519 AAAA".into())), "h ssh-ed25519 AAAA");
}

#[test]
fn level_argument_names_the_choices() {
    assert_eq!(level_argument("strict").unwrap(), McpInterceptLevel::Strict);
    assert_eq!(
        level_argument("Loose").unwrap_err(),
        "无效的拦截等级: Loose（可选 minimal / strict）"
    );
}

#[test]
fn quarantine_names_and_reports() {
    assert_eq!(quarantine_name(&Some("mcp-config".into()), "x", 1700000000), "mcp-config.corrupt-1700000000.json");
    assert_eq!(quarantine_name(&None, "mcp-execution-log", 0), "mcp-execution-log.corrupt-0.json");
    assert_eq!(quarantine_report("/d/log.json", Ok("/d/log.corrupt-1.json".into()), "r"), "/d/log.corrupt-1.json");
    assert_eq!(
        quarantine_report("/d/log.json", Err("busy".into()), "解析失败: eof"),
        "/d/log.json（隔离改名失败: busy，解析失败: eof）"
    );
}
