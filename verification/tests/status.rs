use myshelltool::approval::ElicitationInfo;
use myshelltool::endpoint::McpEndpoint;
use myshelltool::probe::fail_no_endpoint;
use myshelltool::registry::registry;
use myshelltool::status::{approval_event, mcp_status_view, prompt_infos, resource_infos, status_endpoint, tool_infos};

#[test]
fn panel_lists_follow_the_declarations() {
    let tools = tool_infos();
    assert_eq!(tools.len(), registry().len());
    assert_eq!(tools[0].name, "list_assets");
    assert_eq!(tools[0].tag, "readonly");
    assert!(tools.iter().any(|t| t.name == "ssh_exec" && t.tag == "dangerous"));
    let res = resource_infos();
    assert_eq!(res.len(), 4);
    assert!(res.iter().all(|r| !r.is_template));
    let prompts = prompt_infos();
    assert_eq!(prompts[2].name, "cleanup_disk");
    assert_eq!(prompts[0].arguments, vec!["asset_ids".to_string()]);
}

#[test]
fn status_view_and_endpoint() {
    let ep = McpEndpoint {
        url: "http://127.0.0.1:41235/mcp/".into(),
        host: "127.0.0.1".into(),
        port: 41235,
        auth_token: "old".into(),
    };
    assert_eq!(status_endpoint(Some(ep), "tok"), "http://127.0.0.1:41235/mcp/tok");
    assert_eq!(status_endpoint(None, "tok"), "");
    let s = mcp_status_view("1.2.3", String::new(), "/data".into(), fail_no_endpoint("2024-01-01T00:00:00Z"));
    assert_eq!(s.server_name, "myshelltool");
    assert_eq!(s.server_version, "1.2.3");
    assert!(!s.probe.ok);
    assert_eq!(s.prompts.len(), 3);
}

#[test]
fn approval_event_carries_the_real_command() {
    let info = ElicitationInfo { intent: "清理".into(), command: "rm -rf /tmp/x".into(), consequence: "c".into() };
    let e = approval_event("req-1".into(), &info);
    assert_eq!(e.request_id, "req-1");
    assert_eq!(e.command, "rm -rf /tmp/x");
    assert_eq!(e.intent, "清理");
}
