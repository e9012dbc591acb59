//! The built-in editor's remote text files: error classes (`[editor:kind]`
//! prefixes the GUI sorts by), the size limit, the end-of-line target, the
//! verdict of the text sniffing, the conflict check before a write and the
//! messages of the atomic replace (temp file + rename, with a remove-and-retry
//! fallback that never deletes the temp file).
use vstd::prelude::*;

use crate::text::{
    chars_of, decimal, has_infix, lower_ascii, lower_ascii_chars, push_decimal, push_str,
    contains_str, same_text, string_of, to_lowercase, trim, trim_chars, unicode_lowercase,
};

verus! {

/// Largest file the editor opens or saves (2 MiB).
pub const MAX_EDIT_BYTES: u64 = 2097152;

/// `[editor:kind] message`.
pub open spec fn editor_error_text(kind: Seq<char>, message: Seq<char>) -> Seq<char> {
    "[editor:"@ + kind + "] "@ + message
}

/// `[editor:kind] message`.
pub fn ederr(kind: &str, message: &str) -> (r: String)
    ensures
        r@ == editor_error_text(kind@, message@),
{
    let mut v = chars_of("[editor:");
    push_str(&mut v, kind);
    push_str(&mut v, "] ");
    push_str(&mut v, message);
    assert(v@ =~= editor_error_text(kind@, message@));
    string_of(v.as_slice())
}

/// End-of-line style of a text.
#[derive(Debug, Clone, Copy, PartialEq, Eq, Structural)]
pub enum EolKind {
    Lf,
    Crlf,
    Mixed,
}

pub open spec fn eol_name(k: EolKind) -> Seq<char> {
    match k {
        EolKind::Lf => "lf"@,
        EolKind::Crlf => "crlf"@,
        EolKind::Mixed => "mixed"@,
    }
}

pub fn eol_kind_to_str(kind: EolKind) -> (r: &'static str)
    ensures
        r@ == eol_name(kind),
{
    match kind {
        EolKind::Lf => "lf",
        EolKind::Crlf => "crlf",
        EolKind::Mixed => "mixed",
    }
}

/// The end-of-line target of a save: `lf` or `crlf` (trimmed, any ASCII
/// case; also `lf\n` and `cr lf`); anything else keeps the text as it is.
pub open spec fn eol_target(eol: Option<Seq<char>>) -> Option<EolKind> {
    match eol {
        Some(s) => {
            let t = lower_ascii(trim(s));
            if t == "lf"@ || t == "lf\n"@ {
                Some(EolKind::Lf)
            } else if t == "crlf"@ || t == "cr lf"@ {
                Some(EolKind::Crlf)
            } else {
                None
            }
        },
        None => None,
    }
}

pub fn parse_eol_target(eol: &Option<String>) -> (r: Option<EolKind>)
    ensures
        r == eol_target(match *eol {
            Some(s) => Some(s@),
            None => None,
        }),
{
    match eol {
        Some(s) => {
            let t = lower_ascii_chars(trim_chars(chars_of(s.as_str()).as_slice()).as_slice());
            let ts = t.as_slice();
            if crate::text::eq_str(ts, "lf") || crate::text::eq_str(ts, "lf\n") {
                Some(EolKind::Lf)
            } else if crate::text::eq_str(ts, "crlf") || crate::text::eq_str(ts, "cr lf") {
                Some(EolKind::Crlf)
            } else {
                None
            }
        },
        None => None,
    }
}

/// `{prefix}: {error}`, classified as `[editor:not-found]` when its lowercase
/// text says `no such file`.
pub open spec fn missing_classified(prefix: Seq<char>, error: Seq<char>, path: Seq<char>) -> Seq<char> {
    let raw = prefix + ": "@ + error;
    if has_infix(unicode_lowercase(raw), "no such file"@) {
        editor_error_text("not-found"@, "文件不存在："@ + path)
    } else {
        raw
    }
}

pub fn classify_missing(prefix: &str, error: &str, path: &str) -> (r: String)
    ensures
        r@ == missing_classified(prefix@, error@, path@),
{
    let mut v = chars_of(prefix);
    push_str(&mut v, ": ");
    push_str(&mut v, error);
    let raw = string_of(v.as_slice());
    let low = to_lowercase(raw.as_str());
    if contains_str(chars_of(low.as_str()).as_slice(), "no such file") {
        let mut m = chars_of("文件不存在：");
        push_str(&mut m, path);
        let ms = string_of(m.as_slice());
        ederr("not-found", ms.as_str())
    } else {
        raw
    }
}

// ─── opening ───

pub open spec fn dir_error_text(path: Seq<char>) -> Seq<char> {
    editor_error_text("dir"@, "目标路径是目录："@ + path)
}

pub open spec fn too_large_text(size: u64) -> Seq<char> {
    editor_error_text(
        "too-large"@,
        "文件 "@ + decimal(size as nat) + " 字节，超过编辑器上限 "@ + decimal(MAX_EDIT_BYTES as nat)
            + " 字节（2 MiB）。请下载后用本地工具编辑"@,
    )
}

/// What opening a file in the editor gives.
#[derive(Debug)]
pub struct ReadTextResult {
    pub content: String,
    /// The encoding used (canonical label, lower case).
    pub encoding: String,
    /// The file had a UTF-8 byte-order mark (removed from `content`).
    pub has_bom: bool,
    /// `"lf"`, `"crlf"` or `"mixed"`.
    pub eol: String,
    pub size: u64,
    pub modified: String,
    /// No write bit in the remote mode; `None` when the mode is unknown.
    pub read_only: Option<bool>,
}

/// Read-only when the mode grants no write permission to anyone.
pub fn read_only_of(permissions: Option<u32>) -> (r: Option<bool>)
    ensures
        match permissions {
            Some(p) => r == Some((p & 0o222u32) == 0),
            None => r is None,
        },
{
    match permissions {
        Some(p) => Some((p & 0o222u32) == 0),
        None => None,
    }
}

/// Before reading: a directory or a file over `MAX_EDIT_BYTES` is refused.
pub fn open_guard(is_dir: bool, size: u64, path: &str) -> (r: Result<(), String>)
    ensures
        is_dir ==> (r matches Err(e) && e@ == dir_error_text(path@)),
        !is_dir && size > MAX_EDIT_BYTES ==> (r matches Err(e) && e@ == too_large_text(size)),
        !is_dir && size <= MAX_EDIT_BYTES ==> r is Ok,
{
    if is_dir {
        let mut m = chars_of("目标路径是目录：");
        push_str(&mut m, path);
        let ms = string_of(m.as_slice());
        return Err(ederr("dir", ms.as_str()));
    }
    if size > MAX_EDIT_BYTES {
        let mut m = chars_of("文件 ");
        push_decimal(&mut m, size as u128);
        push_str(&mut m, " 字节，超过编辑器上限 ");
        push_decimal(&mut m, MAX_EDIT_BYTES as u128);
        push_str(&mut m, " 字节（2 MiB）。请下载后用本地工具编辑");
        let ms = string_of(m.as_slice());
        return Err(ederr("too-large", ms.as_str()));
    }
    Ok(())
}

/// What the text sniffing said of the bytes.
pub enum RemoteTextOutcome {
    /// Binary content (the reason).
    Binary(String),
    /// Not UTF-8 (where).
    NotUtf8(String),
    /// UTF-8 text, its BOM stripped.
    Text { text: String, has_bom: bool },
}

/// Where decoding goes next.
pub enum DecodeVerdict {
    /// The UTF-8 text as sniffed, with its BOM flag (label `utf-8`).
    Utf8 { text: String, has_bom: bool },
    /// Decode with the chosen encoding.
    WithEncoding,
}

pub open spec fn binary_text(reason: Seq<char>) -> Seq<char> {
    editor_error_text("binary"@, "文件是二进制内容（"@ + reason + "），无法按文本编辑，请改用下载"@)
}

pub open spec fn not_utf8_text(reason: Seq<char>) -> Seq<char> {
    editor_error_text(
        "not-utf8"@,
        "文件不是 UTF-8 文本（"@ + reason + "）。请切换编码（常见：GBK）后重新打开"@,
    )
}

/// Binary content is refused whatever the encoding; without a chosen
/// encoding only UTF-8 text is accepted.
pub fn decode_verdict(outcome: RemoteTextOutcome, encoding_chosen: bool) -> (r: Result<
    DecodeVerdict,
    String,
>)
    ensures
        match outcome {
            RemoteTextOutcome::Binary(reason) => r matches Err(e) && e@ == binary_text(reason@),
            RemoteTextOutcome::NotUtf8(reason) => if encoding_chosen {
                r matches Ok(DecodeVerdict::WithEncoding)
            } else {
                r matches Err(e) && e@ == not_utf8_text(reason@)
            },
            RemoteTextOutcome::Text { text, has_bom } => if encoding_chosen {
                r matches Ok(DecodeVerdict::WithEncoding)
            } else {
                r matches Ok(DecodeVerdict::Utf8 { text: t, has_bom: b }) && t@ == text@ && b
                    == has_bom
            },
        },
{
    match outcome {
        RemoteTextOutcome::Binary(reason) => {
            let mut m = chars_of("文件是二进制内容（");
            push_str(&mut m, reason.as_str());
            push_str(&mut m, "），无法按文本编辑，请改用下载");
            let ms = string_of(m.as_slice());
            Err(ederr("binary", ms.as_str()))
        },
        RemoteTextOutcome::NotUtf8(reason) => {
            if encoding_chosen {
                Ok(DecodeVerdict::WithEncoding)
            } else {
                let mut m = chars_of("文件不是 UTF-8 文本（");
                push_str(&mut m, reason.as_str());
                push_str(&mut m, "）。请切换编码（常见：GBK）后重新打开");
                let ms = string_of(m.as_slice());
                Err(ederr("not-utf8", ms.as_str()))
            }
        },
        RemoteTextOutcome::Text { text, has_bom } => {
            if encoding_chosen {
                Ok(DecodeVerdict::WithEncoding)
            } else {
                Ok(DecodeVerdict::Utf8 { text, has_bom })
            }
        },
    }
}

/// A BOM is written back only for UTF-8 and when asked to keep it.
pub fn restore_bom(keep_bom: bool, label: &str) -> (b: bool)
    ensures
        b == (keep_bom && label@ == "utf-8"@),
{
    keep_bom && same_text(label, "utf-8")
}

// ─── saving ───

/// Result of a save: `written`, or `conflict` (nothing written).
pub struct WriteTextResult {
    pub status: &'static str,
    pub size: u64,
    pub modified: String,
    pub conflict_note: Option<String>,
}

/// What the target's stat gave before a save.
pub enum TargetStat {
    Found { is_dir: bool, size: u64, modified: String },
    Failed(String),
}

/// Whether to write, and over what.
pub enum WriteGuard {
    /// Write; `existing` tells whether the target exists (for the backup).
    Write { existing: bool },
    /// Do not write: report this conflict.
    Conflict(WriteTextResult),
}

pub open spec fn changed_note() -> Seq<char> {
    "远端文件在打开后已被修改（大小或修改时间变化）。"@
}

pub open spec fn deleted_note() -> Seq<char> {
    "远端文件已被删除。"@
}

/// `c` reports a conflict with the target's size and time and this note.
pub open spec fn conflict_result(c: WriteTextResult, size: u64, modified: Seq<char>, note: Seq<char>) -> bool {
    &&& c.status@ == "conflict"@
    &&& c.size == size
    &&& c.modified@ == modified
    &&& c.conflict_note matches Some(n)
    &&& c.conflict_note->0@ == note
}

/// A save guarded by what the editor saw when opening (`expected_*`): a
/// directory is refused; a changed or deleted target is a conflict; with no
/// expectation at all the save goes ahead (new file or "save as").
pub open spec fn guard_ok(
    stat: TargetStat,
    expected_size: Option<u64>,
    expected_modified: Option<Seq<char>>,
    path: Seq<char>,
    r: Result<WriteGuard, String>,
) -> bool {
    let guarded = expected_size is Some || expected_modified is Some;
    match stat {
        TargetStat::Found { is_dir, size, modified } => if is_dir {
            r matches Err(e) && e@ == dir_error_text(path)
        } else {
            let size_ok = match expected_size {
                Some(v) => v == size,
                None => true,
            };
            let mtime_ok = match expected_modified {
                Some(m) => m == modified@,
                None => true,
            };
            if guarded && !(size_ok && mtime_ok) {
                r matches Ok(WriteGuard::Conflict(c)) && conflict_result(c, size, modified@, changed_note())
            } else {
                r matches Ok(WriteGuard::Write { existing: true })
            }
        },
        TargetStat::Failed(err) => {
            let raw = "SFTP stat failed: "@ + err@;
            if has_infix(unicode_lowercase(raw), "no such file"@) {
                if guarded {
                    r matches Ok(WriteGuard::Conflict(c)) && conflict_result(c, 0, Seq::empty(), deleted_note())
                } else {
                    r matches Ok(WriteGuard::Write { existing: false })
                }
            } else {
                r matches Err(e) && e@ == raw
            }
        },
    }
}

pub fn write_guard(
    stat: TargetStat,
    expected_size: Option<u64>,
    expected_modified: &Option<String>,
    path: &str,
) -> (r: Result<WriteGuard, String>)
    ensures
        guard_ok(
            stat,
            expected_size,
            match *expected_modified {
                Some(m) => Some(m@),
                None => None,
            },
            path@,
            r,
        ),
{
    proof {
        reveal_strlit("");
    }
    let guarded = expected_size.is_some() || expected_modified.is_some();
    match stat {
        TargetStat::Found { is_dir, size, modified } => {
            if is_dir {
                let mut m = chars_of("目标路径是目录：");
                push_str(&mut m, path);
                let ms = string_of(m.as_slice());
                return Err(ederr("dir", ms.as_str()));
            }
            let size_ok = match expected_size {
                Some(v) => v == size,
                None => true,
            };
            let mtime_ok = match expected_modified {
                Some(m) => same_text(m.as_str(), modified.as_str()),
                None => true,
            };
            if guarded && !(size_ok && mtime_ok) {
                Ok(
                    WriteGuard::Conflict(
                        WriteTextResult {
                            status: "conflict",
                            size,
                            modified,
                            conflict_note: Some(
                                "远端文件在打开后已被修改（大小或修改时间变化）。".to_owned(),
                            ),
                        },
                    ),
                )
            } else {
                Ok(WriteGuard::Write { existing: true })
            }
        },
        TargetStat::Failed(err) => {
            let mut v = chars_of("SFTP stat failed: ");
            push_str(&mut v, err.as_str());
            let raw = string_of(v.as_slice());
            let low = to_lowercase(raw.as_str());
            if contains_str(chars_of(low.as_str()).as_slice(), "no such file") {
                if guarded {
                    Ok(
                        WriteGuard::Conflict(
                            WriteTextResult {
                                status: "conflict",
                                size: 0,
                                modified: String::new(),
                                conflict_note: Some("远端文件已被删除。".to_owned()),
                            },
                        ),
                    )
                } else {
                    Ok(WriteGuard::Write { existing: false })
                }
            } else {
                Err(raw)
            }
        },
    }
}

/// The temporary file of an atomic save: `{path}.myshelltool.{suffix}.tmp`.
pub open spec fn temp_path_text(path: Seq<char>, suffix: Seq<char>) -> Seq<char> {
    path + ".myshelltool."@ + suffix + ".tmp"@
}

pub fn temp_path_for(path: &str, suffix: &str) -> (r: String)
    ensures
        r@ == temp_path_text(path@, suffix@),
{
    let mut v = chars_of(path);
    push_str(&mut v, ".myshelltool.");
    push_str(&mut v, suffix);
    push_str(&mut v, ".tmp");
    assert(v@ =~= temp_path_text(path@, suffix@));
    string_of(v.as_slice())
}

// ─── atomic replace ───

/// The steps of replacing `target` by `temp`: rename; if that fails and the
/// target exists, remove it and rename once more. The temp file is never
/// deleted on failure: it holds the only copy of the new data.
pub enum ReplaceStep {
    Done,
    /// Stat the target.
    StatTarget,
    /// Remove the existing target.
    RemoveTarget,
    /// Rename again.
    RetryRename,
    Fail(String),
}

pub open spec fn rename_failed_text(target: Seq<char>, e: Seq<char>, temp: Seq<char>) -> Seq<char> {
    "原子替换文件失败 (rename to "@ + target + "): "@ + e + "; 新数据保留在临时文件 "@ + temp
        + "，排除故障后可手动恢复或重试"@
}

pub open spec fn remove_failed_text(target: Seq<char>, e: Seq<char>, remove_err: Seq<char>, temp: Seq<char>) -> Seq<char> {
    "原子替换失败 (rename to "@ + target + "): "@ + e + "; 回退删除已存在目标也失败（原文件未删除）: "@
        + remove_err + "; 新数据保留在临时文件 "@ + temp + "，排除故障后可手动恢复或重试"@
}

pub open spec fn retry_failed_text(target: Seq<char>, e: Seq<char>, retry_err: Seq<char>, temp: Seq<char>) -> Seq<char> {
    "原子替换失败 (rename to "@ + target + "): 首次 "@ + e + "; 删除目标后重试仍失败: "@ + retry_err
        + "; 原文件已删除，新数据保留在临时文件 "@ + temp + "，请手动恢复"@
}

/// After the first rename: done, or find out whether the target exists.
pub fn after_rename(rename_err: &Option<String>) -> (s: ReplaceStep)
    ensures
        (*rename_err is None) ==> (s is Done),
        (*rename_err is Some) ==> (s is StatTarget),
{
    match rename_err {
        None => ReplaceStep::Done,
        Some(_) => ReplaceStep::StatTarget,
    }
}

/// After the stat of the target (`exists`): remove it, or give up.
pub fn after_target_stat(exists: bool, target: &str, rename_err: &str, temp: &str) -> (s: ReplaceStep)
    ensures
        exists ==> (s is RemoveTarget),
        !exists ==> (s matches ReplaceStep::Fail(m) && m@ == rename_failed_text(
            target@,
            rename_err@,
            temp@,
        )),
{
    if exists {
        return ReplaceStep::RemoveTarget;
    }
    let mut v = chars_of("原子替换文件失败 (rename to ");
    push_str(&mut v, target);
    push_str(&mut v, "): ");
    push_str(&mut v, rename_err);
    push_str(&mut v, "; 新数据保留在临时文件 ");
    push_str(&mut v, temp);
    push_str(&mut v, "，排除故障后可手动恢复或重试");
    assert(v@ =~= rename_failed_text(target@, rename_err@, temp@));
    ReplaceStep::Fail(string_of(v.as_slice()))
}

/// After removing the target: rename again, or give up.
pub fn after_remove(remove_err: &Option<String>, target: &str, rename_err: &str, temp: &str) -> (s:
    ReplaceStep)
    ensures
        match *remove_err {
            None => s is RetryRename,
            Some(r) => s matches ReplaceStep::Fail(m) && m@ == remove_failed_text(
                target@,
                rename_err@,
                r@,
                temp@,
            ),
        },
{
    match remove_err {
        None => ReplaceStep::RetryRename,
        Some(r) => {
            let mut v = chars_of("原子替换失败 (rename to ");
            push_str(&mut v, target);
            push_str(&mut v, "): ");
            push_str(&mut v, rename_err);
            push_str(&mut v, "; 回退删除已存在目标也失败（原文件未删除）: ");
            push_str(&mut v, r.as_str());
            push_str(&mut v, "; 新数据保留在临时文件 ");
            push_str(&mut v, temp);
            push_str(&mut v, "，排除故障后可手动恢复或重试");
            assert(v@ =~= remove_failed_text(target@, rename_err@, r@, temp@));
            ReplaceStep::Fail(string_of(v.as_slice()))
        },
    }
}

/// After the second rename: done, or give up.
pub fn after_retry(retry_err: &Option<String>, target: &str, rename_err: &str, temp: &str) -> (s:
    ReplaceStep)
    ensures
        match *retry_err {
            None => s is Done,
            Some(r) => s matches ReplaceStep::Fail(m) && m@ == retry_failed_text(
                target@,
                rename_err@,
                r@,
                temp@,
            ),
        },
{
    match retry_err {
        None => ReplaceStep::Done,
        Some(r) => {
            let mut v = chars_of("原子替换失败 (rename to ");
            push_str(&mut v, target);
            push_str(&mut v, "): 首次 ");
            push_str(&mut v, rename_err);
            push_str(&mut v, "; 删除目标后重试仍失败: ");
            push_str(&mut v, r.as_str());
            push_str(&mut v, "; 原文件已删除，新数据保留在临时文件 ");
            push_str(&mut v, temp);
            push_str(&mut v, "，请手动恢复");
            assert(v@ =~= retry_failed_text(target@, rename_err@, r@, temp@));
            ReplaceStep::Fail(string_of(v.as_slice()))
        },
    }
}

} // verus!
