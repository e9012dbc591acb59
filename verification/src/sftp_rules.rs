//! The rules of the headless SFTP operations the MCP file tools use: listing
//! order, what a text read accepts, how a removal proceeds, and the names of
//! the temporary files behind atomic writes and transfers.
//!
//! The SFTP calls and the local file system are the caller's part (the digest
//! of a transfer is in `digest`); paths reaching these functions are already
//! normalised.
use vstd::prelude::*;

use crate::execution_log::{lemma_lex_lt_asym, lemma_lex_lt_total, lemma_lex_lt_trans, lex_lt, lex_lt_exec};
use crate::remote_entry::{
    dir_entry_to_remote_file_entry, kind_name, octal_mode, permission_text, RemoteFileEntry, SftpDirEntry,
};
use crate::text::{chars_of, decimal, decode_lossy, push_decimal, push_str, string_of, utf8_lossy};

verus! {

/// One entry of a listing returned by the SFTP list tool.
#[derive(Debug, Clone)]
pub struct SftpListEntry {
    pub name: String,
    pub path: String,
    /// `"file"`, `"directory"` or `"symlink"`.
    pub kind: String,
    pub size: u64,
    pub modified: String,
    pub permissions: Option<String>,
}

/// The list entry for an SFTP directory entry.
pub fn list_entry(e: SftpDirEntry) -> (r: SftpListEntry)
    ensures
        r.name == e.name,
        r.path == e.path,
        r.kind@ == kind_name(e.is_dir, e.is_symlink),
        r.size == e.size,
        r.modified == e.modified,
        match e.permissions {
            Some(p) => r.permissions matches Some(s) && s@ == octal_mode(p),
            None => r.permissions is None,
        },
{
    let kind = if e.is_dir {
        "directory"
    } else if e.is_symlink {
        "symlink"
    } else {
        "file"
    };
    let permissions = match e.permissions {
        Some(p) => Some(permission_text(p)),
        None => None,
    };
    SftpListEntry {
        name: e.name,
        path: e.path,
        kind: kind.to_owned(),
        size: e.size,
        modified: e.modified,
        permissions,
    }
}

/// An entry of a directory listing, ordered by its kind name and its name.
pub trait ListedEntry: Sized {
    spec fn kind_view(&self) -> Seq<char>;

    spec fn name_view(&self) -> Seq<char>;

    fn kind_text(&self) -> (r: &str)
        ensures
            r@ == self.kind_view(),
    ;

    fn name_text(&self) -> (r: &str)
        ensures
            r@ == self.name_view(),
    ;
}

impl ListedEntry for SftpListEntry {
    open spec fn kind_view(&self) -> Seq<char> {
        self.kind@
    }

    open spec fn name_view(&self) -> Seq<char> {
        self.name@
    }

    fn kind_text(&self) -> (r: &str) {
        self.kind.as_str()
    }

    fn name_text(&self) -> (r: &str) {
        self.name.as_str()
    }
}

impl ListedEntry for RemoteFileEntry {
    open spec fn kind_view(&self) -> Seq<char> {
        self.kind@
    }

    open spec fn name_view(&self) -> Seq<char> {
        self.name@
    }

    fn kind_text(&self) -> (r: &str) {
        self.kind.as_str()
    }

    fn name_text(&self) -> (r: &str) {
        self.name.as_str()
    }
}

/// `x` sorts strictly before `y`: by kind name, then by name (so directories
/// come before files, files before symlinks).
pub open spec fn sorts_before<T: ListedEntry>(x: T, y: T) -> bool {
    lex_lt(x.kind_view(), y.kind_view()) || (x.kind_view() == y.kind_view() && lex_lt(
        x.name_view(),
        y.name_view(),
    ))
}

pub open spec fn listing_sorted<T: ListedEntry>(s: Seq<T>) -> bool {
    forall|i: int, j: int| 0 <= i < j < s.len() ==> !sorts_before(#[trigger] s[j], #[trigger] s[i])
}

fn sorts_before_exec<T: ListedEntry>(x: &T, y: &T) -> (r: bool)
    ensures
        r == sorts_before(*x, *y),
{
    let xk = chars_of(x.kind_text());
    let yk = chars_of(y.kind_text());
    if lex_lt_exec(xk.as_slice(), yk.as_slice()) {
        return true;
    }
    if !crate::text::same_text(x.kind_text(), y.kind_text()) {
        return false;
    }
    let xn = chars_of(x.name_text());
    let yn = chars_of(y.name_text());
    lex_lt_exec(xn.as_slice(), yn.as_slice())
}

proof fn lemma_sorts_before_asym<T: ListedEntry>(x: T, y: T)
    ensures
        !(sorts_before(x, y) && sorts_before(y, x)),
{
    lemma_lex_lt_asym(x.kind_view(), y.kind_view());
    lemma_lex_lt_asym(x.name_view(), y.name_view());
    if x.kind_view() == y.kind_view() {
        lemma_lex_lt_asym(x.kind_view(), x.kind_view());
    }
}

/// Not after: `!sorts_before(y, x)` and `!sorts_before(z, y)` give `!sorts_before(z, x)`.
proof fn lemma_not_after_trans<T: ListedEntry>(x: T, y: T, z: T)
    requires
        !sorts_before(y, x),
        !sorts_before(z, y),
    ensures
        !sorts_before(z, x),
{
    if sorts_before(z, x) {
        if lex_lt(z.kind_view(), x.kind_view()) {
            if lex_lt(y.kind_view(), z.kind_view()) {
                lemma_lex_lt_trans(y.kind_view(), z.kind_view(), x.kind_view());
            } else if y.kind_view() != z.kind_view() {
                lemma_lex_lt_total(y.kind_view(), z.kind_view());
            }
        } else {
            if lex_lt(y.kind_view(), x.kind_view()) {
            } else if y.kind_view() != x.kind_view() {
                lemma_lex_lt_total(y.kind_view(), x.kind_view());
                assert(lex_lt(x.kind_view(), y.kind_view()));
            } else {
                if lex_lt(y.name_view(), z.name_view()) {
                    lemma_lex_lt_trans(y.name_view(), z.name_view(), x.name_view());
                } else if y.name_view() != z.name_view() {
                    lemma_lex_lt_total(y.name_view(), z.name_view());
                }
            }
        }
    }
}

/// The listing order: directories first, then files, then symlinks, each by
/// name; the entries are exactly those given.
pub fn sort_listing<T: ListedEntry>(entries: Vec<T>) -> (r: Vec<T>)
    ensures
        r@.to_multiset() == entries@.to_multiset(),
        listing_sorted(r@),
{
    broadcast use vstd::seq_lib::group_to_multiset_ensures;

    let ghost orig = entries@;
    let mut r: Vec<T> = Vec::new();
    for e in it: entries.into_iter()
        invariant
            it.seq() == orig,
            r@.to_multiset() == orig.take(it.index() as int).to_multiset(),
            listing_sorted(r@),
    {
        let ghost i = it.index() as int;
        let mut p: usize = 0;
        while p < r.len() && !sorts_before_exec(&e, &r[p])
            invariant
                p <= r@.len(),
                forall|k: int| 0 <= k < p ==> !sorts_before(e, #[trigger] r@[k]),
            decreases r.len() - p,
        {
            p += 1;
        }
        let ghost before = r@;
        proof {
            if p < before.len() {
                assert(sorts_before(e, before[p as int]));
                assert forall|k: int| p <= k < before.len() implies !sorts_before(
                    #[trigger] before[k],
                    e,
                ) by {
                    lemma_sorts_before_asym(e, before[p as int]);
                    if k > p {
                        assert(!sorts_before(before[k], before[p as int]));
                        lemma_not_after_trans(e, before[p as int], before[k]);
                    }
                }
            }
        }
        r.insert(p, e);
        proof {
            assert(r@ == before.insert(p as int, e));
            assert(orig.take(i + 1) =~= orig.take(i).push(e));
            vstd::seq_lib::to_multiset_insert(before, p as int, e);
            vstd::seq_lib::to_multiset_build(orig.take(i), e);
            assert forall|a: int, b: int| 0 <= a < b < r@.len() implies !sorts_before(
                #[trigger] r@[b],
                #[trigger] r@[a],
            ) by {
                if a < p && b == p {
                    assert(r@[a] == before[a]);
                } else if a == p && b > p {
                    assert(r@[b] == before[b - 1]);
                } else if a < p && b > p {
                    assert(r@[b] == before[b - 1]);
                    assert(r@[a] == before[a]);
                } else if b < p {
                    assert(r@[b] == before[b]);
                    assert(r@[a] == before[a]);
                } else {
                    assert(r@[b] == before[b - 1]);
                    assert(r@[a] == before[a - 1]);
                }
            }
        }
    }
    proof {
        assert(orig.take(orig.len() as int) =~= orig);
    }
    r
}

/// An empty (or blank) path lists the server's default directory, which the
/// caller resolves first.
pub fn lists_default_dir(path: &str) -> (r: bool)
    ensures
        r == (crate::text::trim(path@).len() == 0),
{
    crate::text::trim_chars(chars_of(path).as_slice()).len() == 0
}

/// A remote directory as the file panel shows it.
#[derive(Debug)]
pub struct RemoteDirectoryList {
    pub host: String,
    pub path: String,
    pub entries: Vec<RemoteFileEntry>,
}

/// `r` is the panel entry of SFTP entry `e`.
pub open spec fn remote_entry_of(e: SftpDirEntry, r: RemoteFileEntry) -> bool {
    &&& r.name == e.name
    &&& r.path == e.path
    &&& r.kind@ == kind_name(e.is_dir, e.is_symlink)
    &&& r.size == e.size
    &&& r.modified == e.modified
    &&& match e.permissions {
        Some(p) => r.permissions matches Some(s) && s@ == octal_mode(p),
        None => r.permissions is None,
    }
    &&& r.user == e.user
    &&& r.group == e.group
}

/// `m` holds the panel entries of `raw`, one for one.
pub open spec fn entries_of(raw: Seq<SftpDirEntry>, m: Seq<RemoteFileEntry>) -> bool {
    m.len() == raw.len() && forall|i: int| 0 <= i < m.len() ==> remote_entry_of(raw[i], #[trigger] m[i])
}

/// The listing of `path` on `host`: each SFTP entry as a panel entry, in
/// listing order.
pub fn directory_listing(host: String, path: String, raw: Vec<SftpDirEntry>) -> (r: RemoteDirectoryList)
    ensures
        r.host == host,
        r.path == path,
        listing_sorted(r.entries@),
        exists|m: Seq<RemoteFileEntry>|
            #[trigger] entries_of(raw@, m) && r.entries@.to_multiset() == m.to_multiset(),
{
    let ghost src = raw@;
    let mut mapped: Vec<RemoteFileEntry> = Vec::new();
    for e in it: raw.into_iter()
        invariant
            it.seq() == src,
            mapped@.len() == it.index(),
            forall|i: int| 0 <= i < it.index() ==> remote_entry_of(src[i], #[trigger] mapped@[i]),
    {
        let ghost k = it.index() as int;
        let ghost e0 = e;
        let x = dir_entry_to_remote_file_entry(e);
        mapped.push(x);
        proof {
            assert(mapped@[k] == x);
            assert(remote_entry_of(e0, x));
        }
    }
    let ghost m = mapped@;
    assert(entries_of(src, m));
    let entries = sort_listing(mapped);
    RemoteDirectoryList { host, path, entries }
}

/// What a stat of a remote path reports.
#[derive(Debug, Clone)]
pub struct SftpFileMeta {
    pub exists: bool,
    pub is_dir: bool,
    pub size: u64,
    pub modified: String,
}

/// The metadata of an existing path.
pub fn file_meta(is_dir: bool, size: u64, modified: String) -> (r: SftpFileMeta)
    ensures
        r.exists && r.is_dir == is_dir && r.size == size && r.modified == modified,
{
    SftpFileMeta { exists: true, is_dir, size, modified }
}

// ─── reading a text file ───

pub open spec fn read_target_error(path: Seq<char>, is_dir: bool, size: u64, max_bytes: usize) -> Option<Seq<char>> {
    if is_dir {
        Some("目标路径是目录而不是文件: "@ + path)
    } else if size > max_bytes {
        Some(
            "文件过大（"@ + decimal(size as nat) + " 字节，单次读取上限 "@ + decimal(max_bytes as nat)
                + " 字节）。请改用 sftp_download 工具下载到本地后处理。"@,
        )
    } else {
        None
    }
}

/// What a text read accepts before it opens the file: not a directory, and
/// no more than `max_bytes` bytes.
pub fn check_read_target(path: &str, is_dir: bool, size: u64, max_bytes: usize) -> (r: Result<(), String>)
    ensures
        match read_target_error(path@, is_dir, size, max_bytes) {
            Some(e) => r matches Err(m) && m@ == e,
            None => r is Ok,
        },
{
    if is_dir {
        let mut v = chars_of("目标路径是目录而不是文件: ");
        push_str(&mut v, path);
        return Err(string_of(v.as_slice()));
    }
    if size > max_bytes as u64 {
        let mut v = chars_of("文件过大（");
        push_decimal(&mut v, size as u128);
        push_str(&mut v, " 字节，单次读取上限 ");
        push_decimal(&mut v, max_bytes as u128);
        push_str(&mut v, " 字节）。请改用 sftp_download 工具下载到本地后处理。");
        return Err(string_of(v.as_slice()));
    }
    Ok(())
}

/// A file is binary when a NUL byte appears among its first 512 bytes.
pub open spec fn looks_binary(bytes: Seq<u8>) -> bool {
    exists|i: int| 0 <= i < bytes.len() && i < 512 && bytes[i] == 0
}

pub open spec fn binary_file_text() -> Seq<char> {
    "检测到目标文件为二进制内容（包含空字节 NUL），文本读取工具不支持，请改用 sftp_download 下载到本地。"@
}

/// The text of a file read for the text tool: binary content is refused,
/// the rest is decoded as UTF-8 with invalid sequences replaced.
pub fn file_text(bytes: &[u8]) -> (r: Result<String, String>)
    ensures
        looks_binary(bytes@) ==> (r matches Err(e) && e@ == binary_file_text()),
        !looks_binary(bytes@) ==> (r matches Ok(t) && t@ == utf8_lossy(bytes@)),
{
    let n = if bytes.len() < 512 {
        bytes.len()
    } else {
        512
    };
    let mut i: usize = 0;
    while i < n
        invariant
            i <= n,
            n <= bytes@.len(),
            n == bytes@.len() || n == 512,
            n <= 512,
            forall|k: int| 0 <= k < i ==> bytes@[k] != 0,
        decreases n - i,
    {
        if bytes[i] == 0 {
            assert(bytes@[i as int] == 0);
            return Err(string_of(chars_of(
                "检测到目标文件为二进制内容（包含空字节 NUL），文本读取工具不支持，请改用 sftp_download 下载到本地。",
            ).as_slice()));
        }
        i += 1;
    }
    Ok(decode_lossy(bytes))
}

// ─── removal ───

/// How a removal goes for the target found.
#[derive(Debug, Clone, Copy, PartialEq, Eq, Structural)]
pub enum RemovalPlan {
    RemoveFile,
    /// Remove an (empty) directory.
    RemoveDir,
    /// Remove a directory and everything below it.
    RemoveTree,
}

/// A file is removed; a directory is removed whole only when `recursive` is
/// asked for (otherwise only if it is empty).
pub fn removal_plan(is_dir: bool, recursive: bool) -> (r: RemovalPlan)
    ensures
        !is_dir ==> r == RemovalPlan::RemoveFile,
        is_dir && !recursive ==> r == RemovalPlan::RemoveDir,
        is_dir && recursive ==> r == RemovalPlan::RemoveTree,
{
    if !is_dir {
        RemovalPlan::RemoveFile
    } else if recursive {
        RemovalPlan::RemoveTree
    } else {
        RemovalPlan::RemoveDir
    }
}

/// A recursive removal descends at most this many levels.
pub const MAX_REMOVE_DEPTH: usize = 16;

/// A recursive removal refuses to go deeper than `MAX_REMOVE_DEPTH`.
pub fn check_remove_depth(dir_path: &str, depth: usize) -> (r: Result<(), String>)
    ensures
        depth > MAX_REMOVE_DEPTH ==> (r matches Err(e) && e@ == "递归删除超出最大安全深度限制 (16 层): "@
            + dir_path@),
        depth <= MAX_REMOVE_DEPTH ==> r is Ok,
{
    if depth > MAX_REMOVE_DEPTH {
        let mut v = chars_of("递归删除超出最大安全深度限制 (16 层): ");
        push_str(&mut v, dir_path);
        Err(string_of(v.as_slice()))
    } else {
        Ok(())
    }
}

/// `s` without its trailing slashes.
pub open spec fn without_trailing_slashes(s: Seq<char>) -> Seq<char>
    decreases s.len(),
{
    if s.len() > 0 && s.last() == '/' {
        without_trailing_slashes(s.drop_last())
    } else {
        s
    }
}

/// What happens to one entry of a directory being removed.
#[derive(Debug)]
pub enum ChildRemoval {
    /// `.` and `..` are skipped.
    Skip,
    /// A real directory (not a link to one) is removed recursively.
    Descend(String),
    /// Anything else is removed as a file.
    RemoveFile(String),
}

pub open spec fn child_path_text(dir: Seq<char>, name: Seq<char>) -> Seq<char> {
    without_trailing_slashes(dir) + "/"@ + name
}

/// The removal of entry `name` of directory `dir`.
pub fn child_removal(dir: &str, name: &str, is_dir: bool, is_symlink: bool) -> (r: ChildRemoval)
    ensures
        (name@ == "."@ || name@ == ".."@) ==> r is Skip,
        !(name@ == "."@ || name@ == ".."@) && is_dir && !is_symlink ==> (r matches ChildRemoval::Descend(p)
            && p@ == child_path_text(dir@, name@)),
        !(name@ == "."@ || name@ == ".."@) && !(is_dir && !is_symlink) ==> (r matches ChildRemoval::RemoveFile(p)
            && p@ == child_path_text(dir@, name@)),
{
    let nc = chars_of(name);
    if crate::text::eq_str(nc.as_slice(), ".") || crate::text::eq_str(nc.as_slice(), "..") {
        return ChildRemoval::Skip;
    }
    let dc = chars_of(dir);
    let mut end = dc.len();
    assert(dc@.take(end as int) =~= dc@);
    while end > 0 && dc[end - 1] == '/'
        invariant
            end <= dc@.len(),
            without_trailing_slashes(dc@) == without_trailing_slashes(dc@.take(end as int)),
        decreases end,
    {
        assert(dc@.take(end as int).drop_last() =~= dc@.take(end - 1));
        end -= 1;
    }
    let mut v = crate::text::slice_chars(dc.as_slice(), 0, end);
    proof {
        assert(dc@.subrange(0, end as int) =~= dc@.take(end as int));
        assert(without_trailing_slashes(dc@.take(end as int)) == dc@.take(end as int));
    }
    push_str(&mut v, "/");
    push_str(&mut v, name);
    let p = string_of(v.as_slice());
    if is_dir && !is_symlink {
        ChildRemoval::Descend(p)
    } else {
        ChildRemoval::RemoveFile(p)
    }
}

// ─── temporary names ───

/// The temporary file an atomic write goes through: `<path>.myshelltool.<suffix>.tmp`.
pub fn atomic_temp_path(path: &str, suffix: &str) -> (r: String)
    ensures
        r@ == path@ + ".myshelltool."@ + suffix@ + ".tmp"@,
{
    let mut v = chars_of(path);
    push_str(&mut v, ".myshelltool.");
    push_str(&mut v, suffix);
    push_str(&mut v, ".tmp");
    string_of(v.as_slice())
}

/// The remote temporary file of an upload: `<path>.myshelltool.upload.<suffix>.tmp`.
pub fn upload_temp_path(path: &str, suffix: &str) -> (r: String)
    ensures
        r@ == path@ + ".myshelltool.upload."@ + suffix@ + ".tmp"@,
{
    let mut v = chars_of(path);
    push_str(&mut v, ".myshelltool.upload.");
    push_str(&mut v, suffix);
    push_str(&mut v, ".tmp");
    string_of(v.as_slice())
}

/// The local temporary file name of a download, beside its target:
/// `<file name>.myshelltool.download.<suffix>.tmp`.
pub fn download_temp_name(file_name: &str, suffix: &str) -> (r: String)
    ensures
        r@ == file_name@ + ".myshelltool.download."@ + suffix@ + ".tmp"@,
{
    let mut v = chars_of(file_name);
    push_str(&mut v, ".myshelltool.download.");
    push_str(&mut v, suffix);
    push_str(&mut v, ".tmp");
    string_of(v.as_slice())
}

/// A metadata error that means the path does not exist (the SFTP library
/// reports it in words).
pub fn is_missing_path_error(err: &str) -> (r: bool)
    ensures
        r == (crate::text::has_infix(err@, "no such file"@) || crate::text::has_infix(err@, "not found"@)),
{
    let c = chars_of(err);
    crate::text::contains_str(c.as_slice(), "no such file") || crate::text::contains_str(c.as_slice(), "not found")
}

// ─── chmod ───

pub open spec fn is_octal_digit(c: char) -> bool {
    '0' <= c && c <= '7'
}

pub open spec fn all_octal(d: Seq<char>) -> bool {
    forall|i: int| 0 <= i < d.len() ==> #[trigger] is_octal_digit(d[i])
}

/// The value of a run of octal digits.
pub open spec fn octal_value(d: Seq<char>) -> nat
    decreases d.len(),
{
    if d.len() == 0 {
        0
    } else {
        octal_value(d.drop_last()) * 8 + ((d.last() as int - 48) as nat)
    }
}

pub open spec fn pow8(n: nat) -> nat
    decreases n,
{
    if n == 0 {
        1
    } else {
        8 * pow8((n - 1) as nat)
    }
}

pub open spec fn bad_mode_text(mode: Seq<char>) -> Seq<char> {
    "权限格式无效："@ + crate::readonly_tools::debug_text(mode) + "（期望 3-4 位八进制，如 644 或 0755）"@
}

pub open spec fn special_bits_text(mode: Seq<char>) -> Seq<char> {
    "权限格式无效："@ + crate::readonly_tools::debug_text(mode)
        + "（4 位时首位须 0，setuid/setgid/sticky 位暂不支持）"@
}

/// The permission bits a chmod request names: three or four octal digits
/// (surrounding whitespace ignored), a four-digit mode starting with `0`.
pub open spec fn chmod_mode(mode: Seq<char>) -> Result<u32, Seq<char>> {
    let t = crate::text::trim(mode);
    if t.len() < 3 || t.len() > 4 || !all_octal(t) {
        Err(bad_mode_text(mode))
    } else if t.len() == 4 && t[0] != '0' {
        Err(special_bits_text(mode))
    } else {
        Ok(octal_value(t) as u32)
    }
}

/// Parses the mode of a chmod request (see `chmod_mode`).
pub fn parse_chmod_mode(mode: &str) -> (r: Result<u32, String>)
    ensures
        match chmod_mode(mode@) {
            Ok(p) => r == Ok::<u32, String>(p),
            Err(e) => r matches Err(m) && m@ == e,
        },
{
    let t = crate::text::trim_chars(chars_of(mode).as_slice());
    let n = t.len();
    let mut ok = 3 <= n && n <= 4;
    let mut acc: u32 = 0;
    let mut i: usize = 0;
    if ok {
        while i < n
            invariant_except_break
                ok,
            invariant
                n == t@.len(),
                3 <= n <= 4,
                i <= n,
                all_octal(t@.take(i as int)),
                acc == octal_value(t@.take(i as int)),
                acc < pow8(i as nat),
                pow8(i as nat) <= 4096,
            ensures
                ok ==> i == n,
                !ok ==> i < n && !is_octal_digit(t@[i as int]),
            decreases n - i,
        {
            let c = t[i];
            proof {
                assert(t@.take(i + 1).drop_last() =~= t@.take(i as int));
                assert(t@.take(i + 1).last() == c);
                reveal_with_fuel(pow8, 5);
            }
            if !('0' <= c && c <= '7') {
                ok = false;
                proof {
                    assert(!is_octal_digit(t@[i as int]));
                }
                break;
            }
            acc = acc * 8 + (c as u32 - 48);
            i += 1;
            proof {
                assert forall|k: int| 0 <= k < i implies #[trigger] is_octal_digit(t@.take(i as int)[k]) by {
                    if k < i - 1 {
                        assert(t@.take(i as int)[k] == t@.take(i - 1)[k]);
                    }
                }
            }
        }
    }
    if !ok {
        proof {
            if 3 <= n <= 4 {
                assert(!all_octal(t@));
            }
        }
        let mut m = chars_of("权限格式无效：");
        let d = crate::readonly_tools::debug_quoted(mode);
        push_str(&mut m, d.as_str());
        push_str(&mut m, "（期望 3-4 位八进制，如 644 或 0755）");
        return Err(string_of(m.as_slice()));
    }
    proof {
        assert(t@.take(n as int) =~= t@);
    }
    if n == 4 && t[0] != '0' {
        let mut m = chars_of("权限格式无效：");
        let d = crate::readonly_tools::debug_quoted(mode);
        push_str(&mut m, d.as_str());
        push_str(&mut m, "（4 位时首位须 0，setuid/setgid/sticky 位暂不支持）");
        return Err(string_of(m.as_slice()));
    }
    Ok(acc)
}

} // verus!
