use myshelltool::readonly_tools::{
    file_search_command, journal_query_command, port_listen_command, process_list_command,
    service_control_command, ToolCommand,
};
use myshelltool::tools::{is_valid_unit_name, plan_service_status, service_status_command, ServiceStatusPlan};

fn some(s: &str) -> Option<String> {
    Some(s.to_string())
}

fn run(r: Result<ToolCommand, String>) -> String {
    match r.unwrap() {
        ToolCommand::Run(c) => c,
        ToolCommand::Reject(m) => panic!("rejected: {m}"),
    }
}

fn reject(r: Result<ToolCommand, String>) -> String {
    match r.unwrap() {
        ToolCommand::Reject(m) => m,
        ToolCommand::Run(c) => panic!("ran: {c}"),
    }
}

const JOURNAL: &str = "command -v journalctl >/dev/null 2>&1 || { echo 'journalctl not found (non-systemd system?) — try /var/log via ssh_exec'; exit 127; }; env LC_ALL=C journalctl --no-pager -o short-iso -n ";

#[test]
fn journal_query_builds_filters() {
    let a = some("a1");
    assert_eq!(run(journal_query_command(&a, &None, &None, &None, &None, None)), format!("{JOURNAL}100"));
    assert_eq!(
        run(journal_query_command(&a, &some("nginx.service"), &some("1 hour ago"), &some(""), &some("error"), Some(5000))),
        format!("{JOURNAL}2000 -u nginx.service --since '1 hour ago' | env LC_ALL=C grep -F -- 'error'")
    );
    assert_eq!(
        run(journal_query_command(&a, &None, &None, &some("now"), &None, Some(7))),
        format!("{JOURNAL}7 --until 'now'")
    );
}

#[test]
fn journal_query_rejects_injection() {
    let a = some("a1");
    assert_eq!(journal_query_command(&None, &None, &None, &None, &None, None).err().unwrap(), "缺少 asset_id 参数");
    assert_eq!(journal_query_command(&some(""), &None, &None, &None, &None, None).err().unwrap(), "缺少 asset_id 参数");
    assert_eq!(reject(journal_query_command(&a, &some("x;rm"), &None, &None, &None, None)), "unit 参数含非法字符");
    assert_eq!(
        reject(journal_query_command(&a, &None, &some("it's"), &None, &None, None)),
        "since 参数不允许包含单引号或反斜杠"
    );
    assert_eq!(
        reject(journal_query_command(&a, &None, &None, &None, &some("a\\b"), None)),
        "grep 参数不允许包含单引号或反斜杠"
    );
}

#[test]
fn port_listen_variants() {
    let tcp = port_listen_command(&some("a"), Some(true)).unwrap();
    assert!(tcp.starts_with("if command -v ss >/dev/null 2>&1; then echo '[ss]'; env LC_ALL=C ss -tlp;"));
    assert!(tcp.contains("lsof -nP -iT | env LC_ALL=C grep LISTEN"));
    let all = port_listen_command(&some("a"), None).unwrap();
    assert!(all.contains("ss -tunlp;") && all.contains("netstat -tunp 2>/dev/null || env LC_ALL=C netstat -tun;"));
    assert!(all.contains("lsof -nP -i | env LC_ALL=C grep LISTEN") && all.ends_with("echo rc_chain=$?"));
    assert_eq!(port_listen_command(&None, Some(true)).unwrap_err(), "缺少 asset_id 参数");
}

#[test]
fn process_list_sorting_and_limit() {
    let mem = run(process_list_command(&some("a"), &None, None));
    assert!(mem.contains("sort -k5 -nr <$__t | head -20;"));
    let cpu = run(process_list_command(&some("a"), &some("cpu"), Some(500)));
    assert!(cpu.contains("sort -k4 -nr <$__t | head -200;"));
    assert!(cpu.ends_with("echo rc_chain=$rc"));
    assert_eq!(reject(process_list_command(&some("a"), &some("io"), None)), "sortBy 仅支持 cpu / mem（收到 \"io\"）");
}

#[test]
fn file_search_command_shapes() {
    let c = run(file_search_command(&some("a"), &some("/var/log//"), &some("*.log"), Some(10), Some(-3), None));
    assert_eq!(
        c,
        "__t=$(mktemp 2>/dev/null || echo /tmp/.myshelltool-find.$$); env LC_ALL=C find '/var/log' -name '*.log' -size +10M -mtime -3 >\"$__t\" 2>/dev/null; __r=$?; echo rc_find=$__r; head -100 \"$__t\"; rm -f \"$__t\""
    );
    let old = run(file_search_command(&some("a"), &some("/"), &None, None, Some(30), Some(5000)));
    assert!(old.contains("find '' -mtime +30 >") && old.contains("head -1000 "));
    assert_eq!(
        file_search_command(&some("a"), &None, &None, None, None, None).err().unwrap(),
        "缺少 path 参数（起始目录，如 /var/log）"
    );
    assert_eq!(
        reject(file_search_command(&some("a"), &some("/tmp/a b"), &None, None, None, None)),
        "path 参数不允许包含分号或空格（含空格子目录请逐层进入）"
    );
    assert_eq!(
        reject(file_search_command(&some("a"), &some("/tmp'"), &None, None, None, None)),
        "path 参数不允许包含单引号或反斜杠"
    );
    assert_eq!(
        reject(file_search_command(&some("a"), &some("/tmp"), &some("a'b"), None, None, None)),
        "name 参数不允许包含单引号或反斜杠"
    );
}

#[test]
fn service_control_checks() {
    assert_eq!(
        run(service_control_command(&some("a"), &some("nginx"), &some("restart"))),
        "env LC_ALL=C systemctl restart nginx 2>&1; echo rc_ctl=$?; echo '---'; env LC_ALL=C systemctl is-active nginx; echo rc_active=$?"
    );
    assert_eq!(
        reject(service_control_command(&some("a"), &some("nginx"), &some("enable"))),
        "action 仅支持 start / stop / restart / reload（收到 \"enable\"）"
    );
    assert_eq!(reject(service_control_command(&some("a"), &some("a b"), &some("stop"))), "service 参数含非法字符");
    assert_eq!(service_control_command(&some("a"), &None, &some("stop")).err().unwrap(), "缺少 service 参数");
    assert_eq!(service_control_command(&some("a"), &some("x"), &None).err().unwrap(), "缺少 action 参数");
}

#[test]
fn unit_names_and_service_status() {
    assert!(is_valid_unit_name("sshd@1:x-y_z.service"));
    assert!(is_valid_unit_name("服务"));
    assert!(!is_valid_unit_name("a;b"));
    assert!(!is_valid_unit_name("a b"));
    assert_eq!(service_status_command("nginx"), "env LC_ALL=C systemctl status nginx; echo rc_systemctl=$?");
    assert!(matches!(plan_service_status("ssh"), ServiceStatusPlan::Run(c) if c == "env LC_ALL=C systemctl status ssh; echo rc_systemctl=$?"));
    assert!(matches!(plan_service_status("a|b"), ServiceStatusPlan::Reject(m) if m == "service 参数含非法字符"));
    assert!(matches!(plan_service_status(""), ServiceStatusPlan::Reject(m) if m == "缺少 service 参数"));
}
