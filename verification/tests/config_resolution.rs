use myshelltool::config::{config_body, resolve_config, ConfigFileState, McpConfig, McpInterceptLevel};

/// What reading a file with this content gives (`None`: no file), parsed the
/// way the application parses `{"level": ...}`.
fn state_of(content: Option<&str>) -> ConfigFileState {
    let raw = match content {
        None => return ConfigFileState::Missing,
        Some(r) => r,
    };
    match config_body(raw) {
        None => ConfigFileState::Blank,
        Some(body) => match serde_json::from_str::<serde_json::Value>(&body) {
            Err(e) => ConfigFileState::Invalid(e.to_string()),
            Ok(v) => match v.get("level").and_then(|l| l.as_str()).and_then(McpInterceptLevel::parse) {
                Some(level) => ConfigFileState::Parsed(McpConfig { level }),
                None => ConfigFileState::Invalid("unknown variant".to_string()),
            },
        },
    }
}

#[test]
fn config_missing_gives_product_default() {
    let r = resolve_config(state_of(None));
    assert_eq!(r.config.level, McpInterceptLevel::Minimal);
    assert!(r.quarantine_reason.is_none());
}

#[test]
fn config_valid_level_wins() {
    let r = resolve_config(state_of(Some(r#"{"level":"strict"}"#)));
    assert_eq!(r.config.level, McpInterceptLevel::Strict);
    assert!(r.quarantine_reason.is_none());
}

#[test]
fn config_bom_is_stripped_not_quarantined() {
    assert_eq!(config_body("\u{feff}{\"level\":\"minimal\"}").unwrap(), "{\"level\":\"minimal\"}");
    let r = resolve_config(state_of(Some("\u{feff}{\"level\":\"minimal\"}")));
    assert_eq!(r.config.level, McpInterceptLevel::Minimal);
    assert!(r.quarantine_reason.is_none());
}

#[test]
fn config_corrupt_or_unknown_or_empty_is_strict_and_quarantined() {
    for content in ["\u{feff}{\"level\":\"str", r#"{"level":"str"#, r#"{"level":"Loose"}"#] {
        let r = resolve_config(state_of(Some(content)));
        assert_eq!(r.config.level, McpInterceptLevel::Strict);
        assert!(r.quarantine_reason.unwrap().starts_with("解析失败: "));
    }
    for content in ["", "  \n", "\u{feff}"] {
        let r = resolve_config(state_of(Some(content)));
        assert_eq!(r.config.level, McpInterceptLevel::Strict);
        assert_eq!(r.quarantine_reason.unwrap(), "文件为空（写入被截断？）");
    }
}

#[test]
fn config_unreadable_file_is_strict() {
    let r = resolve_config(ConfigFileState::ReadFailed("denied".into()));
    assert_eq!(r.config.level, McpInterceptLevel::Strict);
    assert_eq!(r.quarantine_reason.unwrap(), "读取失败: denied");
}

#[test]
fn level_names_round_trip() {
    for l in [McpInterceptLevel::Minimal, McpInterceptLevel::Strict] {
        assert_eq!(McpInterceptLevel::parse(l.as_str()), Some(l));
    }
    assert_eq!(McpInterceptLevel::parse("Strict"), None);
    assert_eq!(McpConfig::default().level, McpInterceptLevel::Minimal);
    assert_eq!(McpConfig::strict().level, McpInterceptLevel::Strict);
}
