//! The decisions of Gist synchronisation around the network and the secret
//! store: what is checked before a push, how a pull is judged against local
//! changes, what the status panel shows, and how credential reads and writes
//! are tallied. Encryption, the Gist API and the files are the caller's part.
use vstd::prelude::*;

use crate::auth::opt_view;
use crate::session_pool::ConnectionAsset;
use crate::text::{chars_of, decimal, join_with, push_decimal, push_str, same_text, string_of, trim, trim_chars};

verus! {

// ─── masking and status ───

/// A Gist id as the status panel shows it: ids of up to six characters in
/// full, longer ones as `...` and their last six characters.
pub open spec fn masked_gist_id(id: Seq<char>) -> Seq<char> {
    if id.len() <= 6 {
        id
    } else {
        "..."@ + id.skip(id.len() - 6)
    }
}

/// Masks a Gist id (by characters, so any id is accepted).
pub fn mask_gist_id(id: &str) -> (r: String)
    ensures
        r@ == masked_gist_id(id@),
{
    let c = chars_of(id);
    let n = c.len();
    if n <= 6 {
        string_of(c.as_slice())
    } else {
        let mut v = chars_of("...");
        let (_, tail) = c.as_slice().split_at(n - 6);
        crate::text::push_all(&mut v, tail);
        proof {
            reveal_strlit("...");
            assert(v@ =~= masked_gist_id(id@));
        }
        string_of(v.as_slice())
    }
}

/// Whether the remote holds a newer revision than the one last synchronised.
#[derive(Debug)]
pub struct RemoteUpdateStatus {
    pub has_updates: bool,
    pub local_rev: Option<u64>,
    pub remote_rev: Option<u64>,
}

/// The update status for the revision recorded locally and the one the Gist
/// holds (`None` when the Gist is gone): newer only when both are known.
pub fn remote_update_status(local_rev: Option<u64>, remote_rev: Option<u64>) -> (r: RemoteUpdateStatus)
    ensures
        r.local_rev == local_rev,
        r.remote_rev == remote_rev,
        r.has_updates == (local_rev matches Some(l) && remote_rev matches Some(m) && m > l),
{
    let has_updates = match (local_rev, remote_rev) {
        (Some(l), Some(m)) => m > l,
        _ => false,
    };
    RemoteUpdateStatus { has_updates, local_rev, remote_rev }
}

// ─── local changes since the last synchronisation ───

/// What `chrono::DateTime::parse_from_rfc3339` gives for `s`, as Unix seconds.
pub uninterp spec fn rfc3339_seconds(s: Seq<char>) -> Option<i64>;

/// `chrono::DateTime::parse_from_rfc3339(s)` followed by `timestamp()`: the
/// instant `s` names in Unix seconds, `None` when `s` is not RFC 3339.
#[verifier::external_body]
fn parse_rfc3339_seconds(s: &str) -> (r: Option<i64>)
    ensures
        r == rfc3339_seconds(s@),
{
    match chrono::DateTime::parse_from_rfc3339(s) {
        Ok(t) => Some(t.timestamp()),
        Err(_) => None,
    }
}

/// Whether the asset file changed after the synchronisation at `synced`
/// (Unix seconds, `None` when unparsable): an unparsable time or an unknown
/// modification time counts as a change.
pub open spec fn changed_after(synced: Option<i64>, file_mtime: Option<u64>) -> bool {
    match synced {
        None => true,
        Some(t) => {
            let since: int = if t < 0 {
                0
            } else {
                t as int
            };
            match file_mtime {
                None => true,
                Some(m) => m > since,
            }
        },
    }
}

/// The conservative change test once the sync time is parsed.
pub fn local_changes_after(synced: Option<i64>, file_mtime: Option<u64>) -> (r: bool)
    ensures
        r == changed_after(synced, file_mtime),
{
    match synced {
        None => true,
        Some(t) => {
            let since: u64 = if t < 0 {
                0
            } else {
                t as u64
            };
            let m = match file_mtime {
                Some(m) => m,
                None => u64::MAX,
            };
            m > since
        },
    }
}

pub open spec fn has_local_changes(last_synced_at: Option<Seq<char>>, file_mtime: Option<u64>) -> bool {
    match last_synced_at {
        None => true,
        Some(s) => changed_after(rfc3339_seconds(s), file_mtime),
    }
}

/// Whether the local assets changed since the last synchronisation, judged
/// conservatively by the asset file's modification time (Unix seconds,
/// `None` when it could not be read) against the recorded sync time: never
/// synchronised, an unparsable time or an unknown modification time all count
/// as changes, so that a pull never silently overwrites local edits.
pub fn has_local_changes_since_last_sync(last_synced_at: &Option<String>, file_mtime: Option<u64>) -> (r: bool)
    ensures
        r == has_local_changes(opt_view(*last_synced_at), file_mtime),
{
    match last_synced_at {
        None => true,
        Some(s) => local_changes_after(parse_rfc3339_seconds(s.as_str()), file_mtime),
    }
}

// ─── the local state and asset files ───

pub open spec fn empty_state_text(path: Seq<char>) -> Seq<char> {
    "sync-state.json 存在但为空（"@ + path
        + "）——疑为上次写入被截断。已停止同步操作以免把空状态写回；请删除该文件重新配置同步（或从 "@
        + path + ".tmp-* 残留中恢复）"@
}

/// An existing `sync-state.json` whose text is blank is damaged, not a first
/// run: it is refused (with its path) rather than read as the default state.
pub fn check_sync_state_text(path: &str, text: &str) -> (r: Result<(), String>)
    ensures
        trim(text@).len() == 0 ==> (r matches Err(e) && e@ == empty_state_text(path@)),
        trim(text@).len() > 0 ==> r is Ok,
{
    let t = trim_chars(chars_of(text).as_slice());
    if t.len() == 0 {
        let mut v = chars_of("sync-state.json 存在但为空（");
        push_str(&mut v, path);
        push_str(
            &mut v,
            "）——疑为上次写入被截断。已停止同步操作以免把空状态写回；请删除该文件重新配置同步（或从 ",
        );
        push_str(&mut v, path);
        push_str(&mut v, ".tmp-* 残留中恢复）");
        Err(string_of(v.as_slice()))
    } else {
        Ok(())
    }
}

/// How reading the local asset file went.
pub enum AssetsRead {
    Text(String),
    NotFound,
    Failed(String),
}

pub open spec fn empty_assets_json() -> Seq<char> {
    "{\"assets\":[],\"groups\":[]}"@
}

/// The local assets as JSON: a missing file is the empty store (first use);
/// any other read error is an error, never an empty store that a push would
/// then upload over the remote backup.
pub fn local_assets_json(read: AssetsRead, path: &str) -> (r: Result<String, String>)
    ensures
        match read {
            AssetsRead::Text(t) => r == Ok::<String, String>(t),
            AssetsRead::NotFound => r matches Ok(s) && s@ == empty_assets_json(),
            AssetsRead::Failed(e) => r matches Err(m) && m@ == "读取本地资产文件失败（"@ + path@ + "）："@
                + e@,
        },
{
    match read {
        AssetsRead::Text(t) => Ok(t),
        AssetsRead::NotFound => Ok(string_of(chars_of("{\"assets\":[],\"groups\":[]}").as_slice())),
        AssetsRead::Failed(e) => {
            let mut v = chars_of("读取本地资产文件失败（");
            push_str(&mut v, path);
            push_str(&mut v, "）：");
            push_str(&mut v, e.as_str());
            Err(string_of(v.as_slice()))
        },
    }
}

// ─── push, pull and the command checks ───

/// What the Gist held when read before a push.
pub enum RemoteRevision {
    /// The Gist is gone.
    Missing,
    /// Its content is not a sync payload (the parse error).
    Unreadable(String),
    /// The payload's revision.
    Rev(u64),
}

pub open spec fn push_error(local_rev: Option<u64>, remote: RemoteRevision) -> Option<Seq<char>> {
    let local: u64 = match local_rev {
        Some(l) => l,
        None => 0,
    };
    match remote {
        RemoteRevision::Missing => Some(
            "推送已中止：Gist 不存在（可能已被手动删除或失去访问权限）。请重新配置同步（sync_setup）后再推送。"@,
        ),
        RemoteRevision::Unreadable(e) => Some(
            "推送已中止：远端备份内容不是可识别的同步载荷（解析失败: "@ + e@
                + "）。继续推送会覆盖远端文件，请先确认该 Gist 是否被其他工具/版本改写。"@,
        ),
        RemoteRevision::Rev(m) => if m != local {
            Some(
                "推送已中止：远端备份已被其他设备/会话更新（远端 rev "@ + decimal(m as nat)
                    + "，本地记录 rev "@ + decimal(local as nat)
                    + "）。继续推送会用本地内容覆盖数据、丢掉远端那次保存。请先执行「拉取」确认远端改动后再推送。"@,
            )
        } else {
            None
        },
    }
}

/// The optimistic concurrency check before a push: the push goes ahead only
/// when the Gist still holds the revision recorded locally (no revision
/// counts as 0), and then carries the next revision. A missing Gist or one
/// that is not a sync payload is never overwritten blindly.
pub fn push_preflight(local_rev: Option<u64>, remote: RemoteRevision) -> (r: Result<u64, String>)
    requires
        local_rev != Some(u64::MAX),
    ensures
        match push_error(local_rev, remote) {
            Some(e) => r matches Err(m) && m@ == e,
            None => r matches Ok(n) && n == (match local_rev {
                Some(l) => l,
                None => 0,
            }) + 1,
        },
{
    let local: u64 = match local_rev {
        Some(l) => l,
        None => 0,
    };
    match remote {
        RemoteRevision::Missing => Err(string_of(chars_of(
            "推送已中止：Gist 不存在（可能已被手动删除或失去访问权限）。请重新配置同步（sync_setup）后再推送。",
        ).as_slice())),
        RemoteRevision::Unreadable(e) => {
            let mut v = chars_of("推送已中止：远端备份内容不是可识别的同步载荷（解析失败: ");
            push_str(&mut v, e.as_str());
            push_str(&mut v, "）。继续推送会覆盖远端文件，请先确认该 Gist 是否被其他工具/版本改写。");
            Err(string_of(v.as_slice()))
        },
        RemoteRevision::Rev(m) => {
            if m != local {
                let mut v = chars_of("推送已中止：远端备份已被其他设备/会话更新（远端 rev ");
                push_decimal(&mut v, m as u128);
                push_str(&mut v, "，本地记录 rev ");
                push_decimal(&mut v, local as u128);
                push_str(
                    &mut v,
                    "）。继续推送会用本地内容覆盖数据、丢掉远端那次保存。请先执行「拉取」确认远端改动后再推送。",
                );
                Err(string_of(v.as_slice()))
            } else {
                Ok(local + 1)
            }
        },
    }
}

/// The message of a successful push.
pub fn pushed_message(new_rev: u64) -> (r: String)
    ensures
        r@ == "已推送（rev "@ + decimal(new_rev as nat) + "）"@,
{
    let mut v = chars_of("已推送（rev ");
    push_decimal(&mut v, new_rev as u128);
    push_str(&mut v, "）");
    string_of(v.as_slice())
}

/// Which side wins a conflict.
#[derive(Debug, Clone, Copy, PartialEq, Eq, Structural)]
pub enum ConflictSide {
    Local,
    Remote,
}

/// The user's choice in the conflict dialog: `"local"` or `"remote"`.
pub fn conflict_choice(choice: &str) -> (r: Result<ConflictSide, String>)
    ensures
        choice@ == "local"@ ==> r == Ok::<ConflictSide, String>(ConflictSide::Local),
        choice@ == "remote"@ ==> r == Ok::<ConflictSide, String>(ConflictSide::Remote),
        choice@ != "local"@ && choice@ != "remote"@ ==> (r matches Err(e) && e@ == "无效的冲突选择: "@
            + choice@),
{
    let c = chars_of(choice);
    proof {
        reveal_strlit("local");
        reveal_strlit("remote");
        assert("local"@.len() != "remote"@.len());
    }
    if crate::text::eq_str(c.as_slice(), "local") {
        Ok(ConflictSide::Local)
    } else if crate::text::eq_str(c.as_slice(), "remote") {
        Ok(ConflictSide::Remote)
    } else {
        let mut v = chars_of("无效的冲突选择: ");
        push_str(&mut v, choice);
        Err(string_of(v.as_slice()))
    }
}

/// A blank master password is refused.
pub fn require_master_password(password: &str) -> (r: Result<(), String>)
    ensures
        trim(password@).len() == 0 ==> (r matches Err(e) && e@ == "主密码不能为空"@),
        trim(password@).len() > 0 ==> r is Ok,
{
    if trim_chars(chars_of(password).as_slice()).len() == 0 {
        Err(string_of(chars_of("主密码不能为空").as_slice()))
    } else {
        Ok(())
    }
}

/// Resetting the master password needs a new and an old one (the new one is
/// checked first).
pub fn check_reset_passwords(old_password: &str, new_password: &str) -> (r: Result<(), String>)
    ensures
        trim(new_password@).len() == 0 ==> (r matches Err(e) && e@ == "新主密码不能为空"@),
        trim(new_password@).len() > 0 && trim(old_password@).len() == 0 ==> (r matches Err(e) && e@
            == "旧主密码不能为空"@),
        trim(new_password@).len() > 0 && trim(old_password@).len() > 0 ==> r is Ok,
{
    if trim_chars(chars_of(new_password).as_slice()).len() == 0 {
        return Err(string_of(chars_of("新主密码不能为空").as_slice()));
    }
    if trim_chars(chars_of(old_password).as_slice()).len() == 0 {
        return Err(string_of(chars_of("旧主密码不能为空").as_slice()));
    }
    Ok(())
}

/// What the first-time setup does.
#[derive(Debug)]
pub enum SetupPlan {
    /// Synchronisation is configured already.
    AlreadyConfigured { gist_id_masked: String },
    /// Pull the existing Gist (a new machine).
    PullExisting { gist_id: String },
    /// Push the local assets to a new Gist.
    CreateNew,
}

/// The setup plan for the configured Gist id and the one the user gave (a
/// blank one counts as none).
pub fn setup_plan(configured: &Option<String>, gist_id: Option<String>) -> (r: SetupPlan)
    ensures
        match opt_view(*configured) {
            Some(c) => r matches SetupPlan::AlreadyConfigured { gist_id_masked } && gist_id_masked@
                == masked_gist_id(c),
            None => match gist_id {
                Some(g) => if trim(g@).len() > 0 {
                    r == SetupPlan::PullExisting { gist_id: g }
                } else {
                    r is CreateNew
                },
                None => r is CreateNew,
            },
        },
{
    if let Some(c) = configured {
        return SetupPlan::AlreadyConfigured { gist_id_masked: mask_gist_id(c.as_str()) };
    }
    match gist_id {
        Some(g) => {
            if trim_chars(chars_of(g.as_str()).as_slice()).len() > 0 {
                SetupPlan::PullExisting { gist_id: g }
            } else {
                SetupPlan::CreateNew
            }
        },
        None => SetupPlan::CreateNew,
    }
}

// ─── the credentials that travel with the assets ───

pub open spec fn blank(s: Seq<char>) -> bool {
    trim(s).len() == 0
}

pub open spec fn ids_view(v: Seq<String>) -> Seq<Seq<char>> {
    Seq::new(v.len(), |i: int| v[i]@)
}

/// `ids` with `o` added when it is a non-blank id not yet listed.
pub open spec fn with_id(ids: Seq<Seq<char>>, o: Option<Seq<char>>) -> Seq<Seq<char>> {
    match o {
        Some(x) => if !blank(x) && !ids.contains(x) {
            ids.push(x)
        } else {
            ids
        },
        None => ids,
    }
}

/// The credential ids the assets refer to (password, passphrase, managed
/// key), non-blank, each once, in the order first met.
pub open spec fn needed_ids(assets: Seq<ConnectionAsset>) -> Seq<Seq<char>>
    decreases assets.len(),
{
    if assets.len() == 0 {
        Seq::<Seq<char>>::empty()
    } else {
        let a = assets.last();
        with_id(
            with_id(
                with_id(needed_ids(assets.drop_last()), opt_view(a.credential_id)),
                opt_view(a.passphrase_credential_id),
            ),
            opt_view(a.private_key_credential_id),
        )
    }
}

/// Whether asset `a` refers to credential `x`.
pub open spec fn refers_to(a: ConnectionAsset, x: Seq<char>) -> bool {
    opt_view(a.credential_id) == Some(x) || opt_view(a.passphrase_credential_id) == Some(x)
        || opt_view(a.private_key_credential_id) == Some(x)
}

pub open spec fn distinct(ids: Seq<Seq<char>>) -> bool {
    forall|i: int, j: int| 0 <= i < j < ids.len() ==> ids[i] != ids[j]
}

proof fn lemma_with_id(ids: Seq<Seq<char>>, o: Option<Seq<char>>)
    requires
        distinct(ids),
    ensures
        distinct(with_id(ids, o)),
        forall|x: Seq<char>|
            #![trigger with_id(ids, o).contains(x)]
            with_id(ids, o).contains(x) <==> (ids.contains(x) || (o == Some(x) && !blank(x))),
{
    let r = with_id(ids, o);
    if o is Some && !blank(o->0) && !ids.contains(o->0) {
        let y = o->0;
        assert(r == ids.push(y));
        assert forall|i: int, j: int| 0 <= i < j < r.len() implies r[i] != r[j] by {
            if j == ids.len() {
                assert(r[i] == ids[i]);
                assert(ids.contains(r[i]));
            } else {
                assert(r[i] == ids[i] && r[j] == ids[j]);
            }
        }
        assert forall|x: Seq<char>| #[trigger] r.contains(x) implies (ids.contains(x) || (o == Some(x)
            && !blank(x))) by {
            let k = choose|k: int| 0 <= k < r.len() && r[k] == x;
            if k < ids.len() {
                assert(ids[k] == x);
            }
        }
        assert forall|x: Seq<char>| (ids.contains(x) || (o == Some(x) && !blank(x))) implies #[trigger] r.contains(x) by {
            if ids.contains(x) {
                let k = choose|k: int| 0 <= k < ids.len() && ids[k] == x;
                assert(r[k] == x);
            } else {
                assert(r[ids.len() as int] == x);
            }
        }
    } else {
        assert(r == ids);
    }
}

/// Law: the credential ids collected for synchronisation are distinct, and
/// they are exactly the non-blank ids some asset refers to.
pub proof fn lemma_needed_ids(assets: Seq<ConnectionAsset>)
    ensures
        distinct(needed_ids(assets)),
        forall|x: Seq<char>|
            #![trigger needed_ids(assets).contains(x)]
            needed_ids(assets).contains(x) <==> (!blank(x) && exists|i: int|
                0 <= i < assets.len() && refers_to(#[trigger] assets[i], x)),
    decreases assets.len(),
{
    if assets.len() > 0 {
        let d = assets.drop_last();
        let a = assets.last();
        lemma_needed_ids(d);
        let n0 = needed_ids(d);
        let n1 = with_id(n0, opt_view(a.credential_id));
        let n2 = with_id(n1, opt_view(a.passphrase_credential_id));
        lemma_with_id(n0, opt_view(a.credential_id));
        lemma_with_id(n1, opt_view(a.passphrase_credential_id));
        lemma_with_id(n2, opt_view(a.private_key_credential_id));
        assert forall|x: Seq<char>| needed_ids(assets).contains(x) <==> (!blank(x) && exists|i: int|
            0 <= i < assets.len() && refers_to(#[trigger] assets[i], x)) by {
            if needed_ids(assets).contains(x) {
                if n0.contains(x) {
                    let i = choose|i: int| 0 <= i < d.len() && refers_to(#[trigger] d[i], x);
                    assert(assets[i] == d[i]);
                } else {
                    assert(refers_to(assets[assets.len() - 1], x));
                }
            }
            if !blank(x) && exists|i: int| 0 <= i < assets.len() && refers_to(#[trigger] assets[i], x) {
                let i = choose|i: int| 0 <= i < assets.len() && refers_to(#[trigger] assets[i], x);
                if i < d.len() {
                    assert(d[i] == assets[i]);
                    assert(n0.contains(x));
                }
            }
        }
    }
}

fn listed(ids: &Vec<String>, x: &str) -> (r: bool)
    ensures
        r == ids_view(ids@).contains(x@),
{
    let mut k: usize = 0;
    while k < ids.len()
        invariant
            k <= ids@.len(),
            forall|j: int| 0 <= j < k ==> ids@[j]@ != x@,
        decreases ids.len() - k,
    {
        if same_text(ids[k].as_str(), x) {
            assert(ids_view(ids@)[k as int] == x@);
            return true;
        }
        k += 1;
    }
    proof {
        if ids_view(ids@).contains(x@) {
            let j = choose|j: int| 0 <= j < ids_view(ids@).len() && ids_view(ids@)[j] == x@;
            assert(ids@[j]@ == x@);
        }
    }
    false
}

fn add_id(ids: &mut Vec<String>, o: &Option<String>)
    ensures
        ids_view(final(ids)@) == with_id(ids_view(old(ids)@), opt_view(*o)),
{
    if let Some(x) = o {
        if trim_chars(chars_of(x.as_str()).as_slice()).len() > 0 && !listed(ids, x.as_str()) {
            ids.push(x.clone());
            assert(ids_view(ids@) =~= ids_view(old(ids)@).push(x@));
        }
    }
}

/// The credential ids to synchronise for `assets` (see `needed_ids`).
pub fn needed_credential_ids(assets: &Vec<ConnectionAsset>) -> (r: Vec<String>)
    ensures
        ids_view(r@) == needed_ids(assets@),
{
    let mut ids: Vec<String> = Vec::new();
    let mut k: usize = 0;
    assert(ids_view(ids@) =~= needed_ids(assets@.take(0)));
    while k < assets.len()
        invariant
            k <= assets@.len(),
            ids_view(ids@) == needed_ids(assets@.take(k as int)),
        decreases assets.len() - k,
    {
        let a = &assets[k];
        add_id(&mut ids, &a.credential_id);
        add_id(&mut ids, &a.passphrase_credential_id);
        add_id(&mut ids, &a.private_key_credential_id);
        proof {
            let t = assets@.take(k as int + 1);
            assert(t.drop_last() =~= assets@.take(k as int));
            assert(t.last() == assets@[k as int]);
        }
        k += 1;
    }
    assert(assets@.take(assets@.len() as int) =~= assets@);
    ids
}

/// A credential carried in the encrypted vault.
#[derive(Debug)]
pub struct SyncCredentialItem {
    pub id: String,
    pub secret: String,
}

/// What reading the credentials for a push gave: the secrets read, those
/// that could not be read (id and reason), and those the assets refer to but
/// that are not stored.
#[derive(Debug)]
pub struct CollectOutcome {
    pub items: Vec<SyncCredentialItem>,
    pub failed: Vec<(String, String)>,
    pub missing: Vec<String>,
}

pub open spec fn failure_lines(failed: Seq<(String, String)>) -> Seq<Seq<char>> {
    Seq::new(failed.len(), |i: int| failed[i].0@ + ": "@ + failed[i].1@)
}

pub open spec fn failure_summary_text(failed: Seq<(String, String)>) -> Seq<char> {
    join_with(failure_lines(failed), "；"@)
}

pub open spec fn empty_secret_text() -> Seq<char> {
    "凭据文件为空"@
}

/// What recording the read of credential `id` makes of the outcome `o`.
pub open spec fn recorded(
    o: CollectOutcome,
    id: String,
    read: Result<Option<String>, String>,
    n: CollectOutcome,
) -> bool {
    match read {
        Ok(Some(secret)) => if secret@.len() == 0 {
            &&& n.items == o.items
            &&& n.missing == o.missing
            &&& n.failed@.len() == o.failed@.len() + 1
            &&& n.failed@.drop_last() == o.failed@
            &&& n.failed@.last().0 == id
            &&& n.failed@.last().1@ == empty_secret_text()
        } else {
            &&& n.items@ == o.items@.push(SyncCredentialItem { id, secret })
            &&& n.failed == o.failed
            &&& n.missing == o.missing
        },
        Ok(None) => n.missing@ == o.missing@.push(id) && n.items == o.items && n.failed == o.failed,
        Err(e) => n.failed@ == o.failed@.push((id, e)) && n.items == o.items && n.missing == o.missing,
    }
}

impl CollectOutcome {
    /// Nothing collected yet.
    pub fn new() -> (r: Self)
        ensures
            r.items@.len() == 0,
            r.failed@.len() == 0,
            r.missing@.len() == 0,
    {
        CollectOutcome { items: Vec::new(), failed: Vec::new(), missing: Vec::new() }
    }

    /// Records what reading credential `id` from the secret store gave: a
    /// secret is collected (an empty one is a failure, never pushed); an
    /// absent one is listed missing; a read error is a failure.
    pub fn record(&mut self, id: String, read: Result<Option<String>, String>)
        ensures
            recorded(*old(self), id, read, *final(self)),
    {
        match read {
            Ok(Some(secret)) => {
                if secret.as_str().is_empty() {
                    self.failed.push((id, string_of(chars_of("凭据文件为空").as_slice())));
                    assert(self.failed@.drop_last() =~= old(self).failed@);
                } else {
                    self.items.push(SyncCredentialItem { id, secret });
                }
            },
            Ok(None) => self.missing.push(id),
            Err(e) => self.failed.push((id, e)),
        }
    }

    /// Whether some credential that should travel could not be read.
    pub fn has_failures(&self) -> (r: bool)
        ensures
            r == (self.failed@.len() > 0),
    {
        self.failed.len() > 0
    }

    /// `id: reason` for each failure, joined by `；`.
    pub fn failure_summary(&self) -> (r: String)
        ensures
            r@ == failure_summary_text(self.failed@),
    {
        let mut out: Vec<char> = Vec::new();
        let ghost lines = failure_lines(self.failed@);
        let mut k: usize = 0;
        assert(lines.take(0) =~= Seq::<Seq<char>>::empty());
        while k < self.failed.len()
            invariant
                k <= self.failed@.len(),
                lines == failure_lines(self.failed@),
                out@ == join_with(lines.take(k as int), "；"@),
            decreases self.failed.len() - k,
        {
            if k > 0 {
                push_str(&mut out, "；");
            }
            push_str(&mut out, self.failed[k].0.as_str());
            push_str(&mut out, ": ");
            push_str(&mut out, self.failed[k].1.as_str());
            proof {
                let t = lines.take(k + 1);
                assert(t.drop_last() =~= lines.take(k as int));
                assert(t.last() == lines[k as int]);
                if k == 0 {
                    assert(out@ =~= join_with(t, "；"@));
                } else {
                    assert(out@ =~= join_with(t, "；"@));
                }
            }
            k += 1;
        }
        assert(lines.take(self.failed@.len() as int) =~= lines);
        string_of(out.as_slice())
    }

    /// The error that stops a push when some credential could not be read
    /// (an incomplete backup must never replace a complete one).
    pub fn push_abort_error(&self) -> (r: Option<String>)
        ensures
            self.failed@.len() == 0 ==> r is None,
            self.failed@.len() > 0 ==> (r matches Some(e) && e@ == "同步已中止："@ + decimal(
                self.failed@.len() as nat,
            ) + " 项凭据读取失败（"@ + failure_summary_text(self.failed@)
                + "）。这些凭据不会进入备份，若继续推送会用不完整的备份覆盖 Gist 上的完整备份。请先修复（例如确认以同一 Windows 账户运行、凭据文件未被占用）后重试。"@),
    {
        if !self.has_failures() {
            return None;
        }
        let mut v = chars_of("同步已中止：");
        push_decimal(&mut v, self.failed.len() as u128);
        push_str(&mut v, " 项凭据读取失败（");
        let summary = self.failure_summary();
        push_str(&mut v, summary.as_str());
        push_str(
            &mut v,
            "）。这些凭据不会进入备份，若继续推送会用不完整的备份覆盖 Gist 上的完整备份。请先修复（例如确认以同一 Windows 账户运行、凭据文件未被占用）后重试。",
        );
        Some(string_of(v.as_slice()))
    }
}

/// The tally of writing pulled credentials into the local secret store.
#[derive(Debug)]
pub struct RestoreTally {
    pub restored: usize,
    pub failed: Vec<(String, String)>,
}

pub open spec fn empty_item_text() -> Seq<char> {
    "载荷中该凭据为空"@
}

/// Whether a pulled credential may be written (a blank id or an empty secret
/// is recorded as a failure instead).
pub fn restorable(item: &SyncCredentialItem) -> (r: bool)
    ensures
        r == (!blank(item.id@) && item.secret@.len() > 0),
{
    trim_chars(chars_of(item.id.as_str()).as_slice()).len() > 0 && !item.secret.as_str().is_empty()
}

impl RestoreTally {
    pub fn new() -> (r: Self)
        ensures
            r.restored == 0,
            r.failed@.len() == 0,
    {
        RestoreTally { restored: 0, failed: Vec::new() }
    }

    /// Records an item that was not written because it is empty.
    pub fn record_empty(&mut self, id: String)
        ensures
            final(self).restored == old(self).restored,
            final(self).failed@.len() == old(self).failed@.len() + 1,
            final(self).failed@.drop_last() == old(self).failed@,
            final(self).failed@.last().0 == id,
            final(self).failed@.last().1@ == empty_item_text(),
    {
        self.failed.push((id, string_of(chars_of("载荷中该凭据为空").as_slice())));
        assert(self.failed@.drop_last() =~= old(self).failed@);
    }

    /// Records how writing credential `id` went.
    pub fn record_save(&mut self, id: String, saved: Result<(), String>)
        requires
            old(self).restored < usize::MAX,
        ensures
            match saved {
                Ok(()) => final(self).restored == old(self).restored + 1 && final(self).failed
                    == old(self).failed,
                Err(e) => final(self).restored == old(self).restored && final(self).failed@
                    == old(self).failed@.push((id, e)),
            },
    {
        match saved {
            Ok(()) => self.restored = self.restored + 1,
            Err(e) => self.failed.push((id, e)),
        }
    }
}

/// What the synchronisation panel shows.
#[derive(Debug)]
pub struct SyncStatusResult {
    pub configured: bool,
    pub last_synced_at: Option<String>,
    pub gist_id_masked: Option<String>,
    pub pat_configured: bool,
    pub auto_sync_enabled: bool,
    pub sync_credentials: bool,
    /// Local assets changed since the last synchronisation (only when
    /// synchronisation is configured).
    pub local_has_changes: bool,
    pub recovery_password_saved: bool,
}

/// The status panel for the recorded sync state, whether a token is stored,
/// the asset file's modification time and whether a recovery password is
/// kept.
pub fn sync_status_result(
    gist_id: &Option<String>,
    last_synced_at: Option<String>,
    auto_sync_enabled: bool,
    sync_credentials: bool,
    pat_configured: bool,
    file_mtime: Option<u64>,
    recovery_password_saved: bool,
) -> (r: SyncStatusResult)
    ensures
        r.configured == gist_id is Some,
        r.last_synced_at == last_synced_at,
        match opt_view(*gist_id) {
            Some(g) => r.gist_id_masked matches Some(m) && m@ == masked_gist_id(g),
            None => r.gist_id_masked is None,
        },
        r.pat_configured == pat_configured,
        r.auto_sync_enabled == auto_sync_enabled,
        r.sync_credentials == sync_credentials,
        r.local_has_changes == (gist_id is Some && has_local_changes(opt_view(last_synced_at), file_mtime)),
        r.recovery_password_saved == recovery_password_saved,
{
    let gist_id_masked = match gist_id {
        Some(g) => Some(mask_gist_id(g.as_str())),
        None => None,
    };
    let local_has_changes = gist_id.is_some() && has_local_changes_since_last_sync(&last_synced_at, file_mtime);
    SyncStatusResult {
        configured: gist_id.is_some(),
        last_synced_at,
        gist_id_masked,
        pat_configured,
        auto_sync_enabled,
        sync_credentials,
        local_has_changes,
        recovery_password_saved,
    }
}


// ─── command results ───

/// What a push answers.
#[derive(Debug)]
pub struct SyncPushResult {
    pub success: bool,
    pub message: String,
    pub new_rev: Option<u64>,
}

/// A successful push of revision `new_rev`.
pub fn push_result(new_rev: u64) -> (r: SyncPushResult)
    ensures
        r.success,
        r.message@ == "已推送（rev "@ + decimal(new_rev as nat) + "）"@,
        r.new_rev == Some(new_rev),
{
    SyncPushResult { success: true, message: pushed_message(new_rev), new_rev: Some(new_rev) }
}

/// What turning automatic synchronisation on or off answers.
#[derive(Debug)]
pub struct AutoSyncResult {
    pub enabled: bool,
    pub message: String,
}

pub fn auto_sync_result(enabled: bool) -> (r: AutoSyncResult)
    ensures
        r.enabled == enabled,
        enabled ==> r.message@ == "自动同步已启用（会话密钥已用 DPAPI 保护）"@,
        !enabled ==> r.message@ == "自动同步已关闭（会话密钥已删除）"@,
{
    if enabled {
        AutoSyncResult {
            enabled: true,
            message: string_of(chars_of("自动同步已启用（会话密钥已用 DPAPI 保护）").as_slice()),
        }
    } else {
        AutoSyncResult {
            enabled: false,
            message: string_of(chars_of("自动同步已关闭（会话密钥已删除）").as_slice()),
        }
    }
}

/// What the first-time setup answers.
#[derive(Debug)]
pub enum SyncSetupResult {
    /// A new Gist was created and pushed.
    Created { gist_id_masked: String },
    /// An existing Gist was pulled; its assets for the user to confirm.
    PulledRemote { assets_json: String },
    /// Synchronisation was configured already.
    AlreadyConfigured { gist_id_masked: String },
}

/// The answer once a new Gist `gist_id` was created.
pub fn setup_created(gist_id: &str) -> (r: SyncSetupResult)
    ensures
        r matches SyncSetupResult::Created { gist_id_masked } && gist_id_masked@ == masked_gist_id(gist_id@),
{
    SyncSetupResult::Created { gist_id_masked: mask_gist_id(gist_id) }
}

/// How a pull compares the two sides (local changes since the last
/// synchronisation, and a newer remote revision).
#[derive(Debug, Clone, Copy, PartialEq, Eq, Structural)]
pub enum SyncDecision {
    NoChange,
    PullRemote,
    PushLocal,
    Conflict,
}

/// What a pull answers.
#[derive(Debug)]
pub enum SyncPullResult {
    NoChange,
    /// The remote was newer and the local side unchanged: its assets were
    /// taken; `credentials_failed` credentials could not be stored locally.
    Pulled { assets_json: String, new_rev: u64, credentials_failed: usize },
    /// The local side is newer: push instead.
    LocalNewer,
    /// Both sides changed: the user chooses.
    Conflict { local_json: String, remote_json: String, remote_rev: u64 },
}

/// The answer for a decision that needs no remote content (`None` for
/// `PullRemote` and `Conflict`, which decrypt it first).
pub fn pull_answer(decision: SyncDecision) -> (r: Option<SyncPullResult>)
    ensures
        decision == SyncDecision::NoChange ==> r matches Some(SyncPullResult::NoChange),
        decision == SyncDecision::PushLocal ==> r matches Some(SyncPullResult::LocalNewer),
        (decision == SyncDecision::PullRemote || decision == SyncDecision::Conflict) ==> r is None,
{
    match decision {
        SyncDecision::NoChange => Some(SyncPullResult::NoChange),
        SyncDecision::PushLocal => Some(SyncPullResult::LocalNewer),
        _ => None,
    }
}

/// How many pulled credentials could not be stored: the failures of the
/// restore, or all of them when the secret store could not be opened.
pub fn credentials_failed(total: usize, restore: Result<RestoreTally, String>) -> (r: usize)
    ensures
        match restore {
            Ok(t) => r == t.failed@.len(),
            Err(_) => r == total,
        },
{
    match restore {
        Ok(t) => t.failed.len(),
        Err(_) => total,
    }
}

} // verus!
