use myshelltool::prompts::{get_prompt, list_prompts, parse_asset_ids, prompt_for};

fn some(s: &str) -> Option<String> {
    Some(s.to_string())
}

#[test]
fn asset_ids_three_forms() {
    let ids = parse_asset_ids(some("[\"a\",\"b\"]"), None).unwrap();
    assert_eq!(ids, vec!["a".to_string(), "b".to_string()]);
    let ids = parse_asset_ids(some("a, b,,c"), None).unwrap();
    assert_eq!(ids, vec!["a", "b", "c"]);
    let ids = parse_asset_ids(None, some("single")).unwrap();
    assert_eq!(ids, vec!["single".to_string()]);
    let ids = parse_asset_ids(some("one"), None).unwrap();
    assert_eq!(ids, vec!["one".to_string()]);
}

#[test]
fn missing_or_empty_rejected() {
    assert!(parse_asset_ids(None, None).is_err());
    assert!(parse_asset_ids(some(" , ,"), None).is_err());
}

#[test]
fn discipline_preserved_in_all_prompts() {
    for name in ["diagnose_server", "audit_security", "cleanup_disk"] {
        let result = get_prompt(name, some("a,b"), None).unwrap();
        let text = result.text;
        assert!(text.contains("未取得数据"), "{name} 缺「查不到≠无异常」纪律");
        assert!(text.contains("对比表") || name == "cleanup_disk", "{name} 缺多机对比口径");
    }
}

#[test]
fn single_asset_has_no_multi_table_noise() {
    let result = get_prompt("diagnose_server", some("solo"), None).unwrap();
    let text = result.text;
    assert!(!text.contains("对比表"), "单资产不应输出多机对比噪音");
}

#[test]
fn unknown_prompt_is_an_error_naming_it() {
    let err = prompt_for("nope", &vec!["a".to_string()]).unwrap_err();
    assert_eq!(err, "未知 prompt: nope");
}

#[test]
fn missing_ids_are_reported_before_the_name() {
    assert!(get_prompt("nope", None, None).unwrap_err().contains("asset_ids"));
}

#[test]
fn three_prompts_are_listed() {
    let names: Vec<&str> = list_prompts().iter().map(|p| p.name).collect();
    assert_eq!(names, vec!["diagnose_server", "audit_security", "cleanup_disk"]);
}

#[test]
fn multi_asset_header_counts_the_assets() {
    let text = get_prompt("cleanup_disk", some("x, y"), None).unwrap().text;
    assert!(text.starts_with("请对 2 台资产（x、y）"), "{text}");
}
