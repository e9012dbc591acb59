use myshelltool::probe::{
    check_init_reply, extract_first_json_from_sse, fail, probe_result, InitReply, ProbeOutcome,
    ServerInfoDto,
};

#[test]
fn sse_first_data_line_with_an_object() {
    let body = "event: message\ndata: [1]\ndata:   {\"id\":1}  \r\ndata: {\"id\":2}\n";
    assert_eq!(extract_first_json_from_sse(body).as_deref(), Some("{\"id\":1}"));
}

#[test]
fn bare_json_body_is_its_own_frame() {
    assert_eq!(extract_first_json_from_sse("  {\"ok\":true}\n").as_deref(), Some("{\"ok\":true}"));
    assert_eq!(extract_first_json_from_sse("event: ping\n\n"), None);
    assert_eq!(extract_first_json_from_sse("data:{\"x\":1}"), None);
}

fn reply(id: Option<i64>, error: Option<&str>, has_result: bool, info: Option<(Option<&str>, Option<&str>)>) -> InitReply {
    InitReply {
        id,
        error: error.map(|e| e.to_string()),
        has_result,
        server_info: info.map(|(n, v)| (n.map(|s| s.to_string()), v.map(|s| s.to_string()))),
    }
}

fn err(r: Result<ServerInfoDto, (String, String)>) -> (String, String) {
    r.unwrap_err()
}

#[test]
fn initialize_answer_checks() {
    let ok = check_init_reply(reply(Some(1), None, true, Some((Some("myshelltool"), Some("1.2"))))).unwrap();
    assert_eq!((ok.name.as_str(), ok.version.as_str()), ("myshelltool", "1.2"));
    let defaults = check_init_reply(reply(Some(1), None, true, Some((None, None)))).unwrap();
    assert_eq!((defaults.name.as_str(), defaults.version.as_str()), ("unknown", "unknown"));
    assert_eq!(err(check_init_reply(reply(Some(2), None, true, None))), ("bad_protocol".into(), "响应 id 不匹配".into()));
    assert_eq!(err(check_init_reply(reply(None, None, true, None))).1, "响应 id 不匹配");
    assert_eq!(
        err(check_init_reply(reply(Some(1), Some("{\"code\":-1}"), true, None))).1,
        "server 返回错误: {\"code\":-1}"
    );
    assert_eq!(err(check_init_reply(reply(Some(1), None, false, None))).1, "响应无 result 字段");
    assert_eq!(err(check_init_reply(reply(Some(1), None, true, None))).1, "响应无 serverInfo");
}

#[test]
fn probe_results() {
    let ready = probe_result(
        "http://127.0.0.1:41235/mcp",
        "t".into(),
        ProbeOutcome::Ready(ServerInfoDto { name: "n".into(), version: "v".into() }),
    );
    assert!(ready.ok && ready.reason.is_none() && ready.server_info.is_some());
    assert_eq!(ready.exe_path, "http://127.0.0.1:41235/mcp");
    let failed = probe_result("u", "t".into(), ProbeOutcome::Failed("http_error".into(), "503".into()));
    assert!(!failed.ok);
    assert_eq!((failed.reason.as_deref(), failed.detail.as_deref()), (Some("http_error"), Some("503")));
    let timeout = probe_result("u", "t".into(), ProbeOutcome::TimedOut);
    assert_eq!((timeout.reason.as_deref(), timeout.detail.as_deref()), (Some("timeout"), Some("健康检查超时（2s）")));
    let f = fail("u", "d".into(), "t".into(), "bad_protocol");
    assert!(!f.ok && f.reason.as_deref() == Some("bad_protocol") && f.probed_at == "t");
}
