//! MCP interception level configuration (`mcp-config.json`).
//!
//! `Minimal` (the default) hard-blocks only catastrophic commands and lets
//! everything else run with an execution-log entry; `Strict` asks the user for
//! every command outside the read-only whitelist. A configuration file that
//! exists but cannot be trusted never degrades to `Minimal`: it yields `Strict`.
use vstd::prelude::*;

use crate::text::{chars_of, eq_str, slice_chars, string_of, trim, trim_chars};

verus! {

/// Interception level.
#[derive(Debug, Clone, Copy, PartialEq, Eq, Structural)]
pub enum McpInterceptLevel {
    Minimal,
    Strict,
}

pub open spec fn level_name(level: McpInterceptLevel) -> Seq<char> {
    match level {
        McpInterceptLevel::Minimal => "minimal"@,
        McpInterceptLevel::Strict => "strict"@,
    }
}

pub open spec fn level_from_name(s: Seq<char>) -> Option<McpInterceptLevel> {
    if s == "minimal"@ {
        Some(McpInterceptLevel::Minimal)
    } else if s == "strict"@ {
        Some(McpInterceptLevel::Strict)
    } else {
        None
    }
}

impl McpInterceptLevel {
    /// Serialised name (`"minimal"` / `"strict"`), also written to the execution log.
    pub fn as_str(&self) -> (r: &'static str)
        ensures
            r@ == level_name(*self),
    {
        match self {
            McpInterceptLevel::Minimal => "minimal",
            McpInterceptLevel::Strict => "strict",
        }
    }

    /// Parses a level name; any other text is `None`.
    pub fn parse(s: &str) -> (r: Option<Self>)
        ensures
            r == level_from_name(s@),
    {
        let c = chars_of(s);
        if eq_str(c.as_slice(), "minimal") {
            Some(McpInterceptLevel::Minimal)
        } else if eq_str(c.as_slice(), "strict") {
            Some(McpInterceptLevel::Strict)
        } else {
            None
        }
    }
}

/// Law: a level's name parses back to the level.
pub proof fn lemma_level_name_roundtrip(level: McpInterceptLevel)
    ensures
        level_from_name(level_name(level)) == Some(level),
{
    reveal_strlit("minimal");
    reveal_strlit("strict");
    assert("minimal"@.len() != "strict"@.len());
}

/// The level a settings request names, or the error shown for any other text.
pub fn level_argument(level: &str) -> (r: Result<McpInterceptLevel, String>)
    ensures
        match level_from_name(level@) {
            Some(l) => r == Ok::<McpInterceptLevel, String>(l),
            None => r matches Err(e) && e@ == "无效的拦截等级: "@ + level@ + "（可选 minimal / strict）"@,
        },
{
    match McpInterceptLevel::parse(level) {
        Some(l) => Ok(l),
        None => {
            let mut v = chars_of("无效的拦截等级: ");
            crate::text::push_str(&mut v, level);
            crate::text::push_str(&mut v, "（可选 minimal / strict）");
            Err(string_of(v.as_slice()))
        },
    }
}

/// The name a damaged file is moved to, beside it: `<stem>.corrupt-<secs>.json`
/// (`fallback` when the file has no readable stem).
pub open spec fn quarantine_name_text(stem: Option<Seq<char>>, fallback: Seq<char>, secs: u64) -> Seq<char> {
    (match stem {
        Some(s) => s,
        None => fallback,
    }) + ".corrupt-"@ + crate::text::decimal(secs as nat) + ".json"@
}

pub fn quarantine_name(stem: &Option<String>, fallback: &str, secs: u64) -> (r: String)
    ensures
        r@ == quarantine_name_text(crate::auth::opt_view(*stem), fallback@, secs),
{
    let mut v = match stem {
        Some(s) => chars_of(s.as_str()),
        None => chars_of(fallback),
    };
    crate::text::push_str(&mut v, ".corrupt-");
    crate::text::push_decimal(&mut v, secs as u128);
    crate::text::push_str(&mut v, ".json");
    string_of(v.as_slice())
}

/// MCP configuration.
#[derive(Debug, Clone, Copy, PartialEq, Eq, Structural)]
pub struct McpConfig {
    pub level: McpInterceptLevel,
}

impl Default for McpConfig {
    /// The product default when no preference was ever saved: `Minimal`.
    fn default() -> (r: Self)
        ensures
            r.level == McpInterceptLevel::Minimal,
    {
        McpConfig { level: McpInterceptLevel::Minimal }
    }
}

impl McpConfig {
    /// The conservative configuration used when the saved one cannot be trusted.
    pub fn strict() -> (r: Self)
        ensures
            r.level == McpInterceptLevel::Strict,
    {
        McpConfig { level: McpInterceptLevel::Strict }
    }
}

/// What reading `mcp-config.json` produced.
pub enum ConfigFileState {
    /// The file does not exist: the user never expressed a preference.
    Missing,
    /// The file exists but could not be read (reason attached).
    ReadFailed(String),
    /// The file holds only whitespace (after a UTF-8 BOM, if any).
    Blank,
    /// The content parsed to a configuration.
    Parsed(McpConfig),
    /// The content did not parse (reason attached).
    Invalid(String),
}

/// The configuration in force, and the reason to quarantine the file when it
/// cannot be trusted.
pub struct ConfigResolution {
    pub config: McpConfig,
    pub quarantine_reason: Option<String>,
}

pub open spec fn untrusted(state: ConfigFileState) -> bool {
    match state {
        ConfigFileState::ReadFailed(_) | ConfigFileState::Blank | ConfigFileState::Invalid(_) => true,
        _ => false,
    }
}

/// Resolves the configuration: a missing file gives the default (`Minimal`),
/// a parsed file its own level, and every file that exists but cannot be
/// trusted gives `Strict` together with a quarantine reason.
pub fn resolve_config(state: ConfigFileState) -> (r: ConfigResolution)
    ensures
        match state {
            ConfigFileState::Missing => r.config.level == McpInterceptLevel::Minimal
                && r.quarantine_reason.is_none(),
            ConfigFileState::Parsed(c) => r.config == c && r.quarantine_reason.is_none(),
            ConfigFileState::ReadFailed(e) => r.config.level == McpInterceptLevel::Strict
                && r.quarantine_reason is Some && r.quarantine_reason.unwrap()@ == "读取失败: "@
                + e@,
            ConfigFileState::Blank => r.config.level == McpInterceptLevel::Strict
                && r.quarantine_reason is Some && r.quarantine_reason.unwrap()@
                == "文件为空（写入被截断？）"@,
            ConfigFileState::Invalid(e) => r.config.level == McpInterceptLevel::Strict
                && r.quarantine_reason is Some && r.quarantine_reason.unwrap()@ == "解析失败: "@
                + e@,
        },
        untrusted(state) ==> r.config.level == McpInterceptLevel::Strict,
{
    match state {
        ConfigFileState::Missing => ConfigResolution {
            config: McpConfig::default(),
            quarantine_reason: None,
        },
        ConfigFileState::Parsed(c) => ConfigResolution { config: c, quarantine_reason: None },
        ConfigFileState::ReadFailed(e) => {
            let mut v = chars_of("读取失败: ");
            crate::text::push_str(&mut v, e.as_str());
            ConfigResolution {
                config: McpConfig::strict(),
                quarantine_reason: Some(string_of(v.as_slice())),
            }
        },
        ConfigFileState::Blank => ConfigResolution {
            config: McpConfig::strict(),
            quarantine_reason: Some(string_of(chars_of("文件为空（写入被截断？）").as_slice())),
        },
        ConfigFileState::Invalid(e) => {
            let mut v = chars_of("解析失败: ");
            crate::text::push_str(&mut v, e.as_str());
            ConfigResolution {
                config: McpConfig::strict(),
                quarantine_reason: Some(string_of(v.as_slice())),
            }
        },
    }
}

/// The byte-order mark U+FEFF.
pub open spec fn is_bom(c: char) -> bool {
    c as u32 == 0xfeff
}

/// The configuration text with a leading UTF-8 BOM removed (only at the start).
pub open spec fn without_bom(s: Seq<char>) -> Seq<char> {
    if s.len() > 0 && is_bom(s[0]) {
        s.drop_first()
    } else {
        s
    }
}

/// The text to hand to the JSON parser: the file content without its leading
/// BOM, or `None` when nothing but whitespace remains (a truncated write).
pub fn config_body(raw: &str) -> (r: Option<String>)
    ensures
        trim(without_bom(raw@)).len() == 0 ==> r is None,
        trim(without_bom(raw@)).len() > 0 ==> r is Some && r.unwrap()@ == without_bom(raw@),
{
    let c = chars_of(raw);
    let body = if c.len() > 0 && c[0] as u32 == 0xfeff {
        slice_chars(c.as_slice(), 1, c.len())
    } else {
        slice_chars(c.as_slice(), 0, c.len())
    };
    proof {
        assert(c@.subrange(1, c@.len() as int) =~= c@.drop_first());
        assert(c@.subrange(0, c@.len() as int) =~= c@);
    }
    let t = trim_chars(body.as_slice());
    if t.len() == 0 {
        None
    } else {
        Some(string_of(body.as_slice()))
    }
}

} // verus!
