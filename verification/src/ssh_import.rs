//! Importing hosts from an OpenSSH config file: where the file is, and the
//! preview of the candidates with their conflicts against the saved assets.
//!
//! Reading the file and parsing its `Host` blocks are the caller's part; the
//! preview compares each parsed host with the assets by `host:port:username`,
//! a missing `User` standing for the local user name (OpenSSH's default).
use vstd::prelude::*;

use crate::auth::opt_view;
use crate::session_pool::ConnectionAsset;
use crate::text::{chars_of, push_all, push_str, same_text, string_of};

verus! {

/// The configuration file read when no path is given.
pub const DEFAULT_SSH_CONFIG_PATH: &'static str = "~/.ssh/config";

pub open spec fn no_home_text() -> Seq<char> {
    "无法确定本机用户主目录（USERPROFILE/HOME 均未设置），无法展开私钥路径 '~'，请改用绝对路径"@
}

/// `~/…` expanded against the home directory; other paths unchanged.
pub open spec fn expanded_path(path: Seq<char>, home: Option<Seq<char>>) -> Result<Seq<char>, Seq<char>> {
    if path.len() >= 2 && path[0] == '~' && path[1] == '/' {
        match home {
            Some(h) => Ok(h + path.skip(1)),
            None => Err(no_home_text()),
        }
    } else {
        Ok(path)
    }
}

/// Expands a leading `~/` to the home directory `home` (the first of
/// `USERPROFILE` and `HOME` that is set); without one that is an error
/// rather than a silent fallback.
pub fn expand_home_path(path: &str, home: &Option<String>) -> (r: Result<String, String>)
    ensures
        match expanded_path(path@, opt_view(*home)) {
            Ok(p) => r matches Ok(s) && s@ == p,
            Err(e) => r matches Err(s) && s@ == e,
        },
{
    let c = chars_of(path);
    if c.len() >= 2 && c[0] == '~' && c[1] == '/' {
        match home {
            Some(h) => {
                let mut v = chars_of(h.as_str());
                push_all(&mut v, c.as_slice().split_at(1).1);
                proof {
                    assert(c@.subrange(1, c@.len() as int) =~= path@.skip(1));
                }
                Ok(string_of(v.as_slice()))
            },
            None => Err(string_of(chars_of(
                "无法确定本机用户主目录（USERPROFILE/HOME 均未设置），无法展开私钥路径 '~'，请改用绝对路径",
            ).as_slice())),
        }
    } else {
        Ok(string_of(c.as_slice()))
    }
}

/// The config file to read: `path`, or `~/.ssh/config`, expanded; a failed
/// expansion names the raw path.
pub open spec fn config_path(path: Option<Seq<char>>, home: Option<Seq<char>>) -> Result<Seq<char>, Seq<char>> {
    let raw = match path {
        Some(p) => p,
        None => "~/.ssh/config"@,
    };
    match expanded_path(raw, home) {
        Ok(p) => Ok(p),
        Err(e) => Err("解析配置路径失败（"@ + raw + "）: "@ + e),
    }
}

pub fn resolve_config_path(path: Option<String>, home: &Option<String>) -> (r: Result<String, String>)
    ensures
        match config_path(opt_view(path), opt_view(*home)) {
            Ok(p) => r matches Ok(s) && s@ == p,
            Err(e) => r matches Err(s) && s@ == e,
        },
{
    let raw = match path {
        Some(p) => p,
        None => string_of(chars_of(DEFAULT_SSH_CONFIG_PATH).as_slice()),
    };
    proof {
        reveal_strlit("~/.ssh/config");
    }
    match expand_home_path(raw.as_str(), home) {
        Ok(p) => Ok(p),
        Err(e) => {
            let mut v = chars_of("解析配置路径失败（");
            push_str(&mut v, raw.as_str());
            push_str(&mut v, "）: ");
            push_str(&mut v, e.as_str());
            Err(string_of(v.as_slice()))
        },
    }
}

/// One `Host` block of an OpenSSH config file.
pub struct SshConfigHost {
    pub alias: String,
    pub host: String,
    pub port: u16,
    pub username: Option<String>,
    pub identity_file: Option<String>,
    pub proxy_jump: Option<String>,
}

/// A host offered for import, with the saved asset it conflicts with.
#[derive(Debug)]
pub struct SshImportCandidate {
    pub alias: String,
    pub host: String,
    pub port: u16,
    pub username: Option<String>,
    pub identity_file: Option<String>,
    pub proxy_jump: Option<String>,
    /// The saved asset with the same `host:port:username`, if any.
    pub conflict_existing_id: Option<String>,
    pub conflict_existing_name: Option<String>,
}

/// The import preview: the file read and its candidates.
#[derive(Debug)]
pub struct SshImportPreview {
    pub source_path: String,
    pub candidates: Vec<SshImportCandidate>,
}

/// Position of the first asset at `host:port` for `user`.
pub open spec fn conflict_pos(
    assets: Seq<ConnectionAsset>,
    host: Seq<char>,
    port: u16,
    user: Seq<char>,
) -> Option<int>
    decreases assets.len(),
{
    if assets.len() == 0 {
        None
    } else if assets[0].host@ == host && assets[0].port == port && assets[0].username@ == user {
        Some(0)
    } else {
        match conflict_pos(assets.drop_first(), host, port, user) {
            Some(i) => Some(i + 1),
            None => None,
        }
    }
}

pub open spec fn same_machine(a: ConnectionAsset, host: Seq<char>, port: u16, user: Seq<char>) -> bool {
    a.host@ == host && a.port == port && a.username@ == user
}

proof fn lemma_conflict_pos(assets: Seq<ConnectionAsset>, host: Seq<char>, port: u16, user: Seq<char>, i: int)
    requires
        0 <= i <= assets.len(),
        forall|j: int| 0 <= j < i ==> !same_machine(#[trigger] assets[j], host, port, user),
        i < assets.len() ==> same_machine(assets[i], host, port, user),
    ensures
        conflict_pos(assets, host, port, user) == (if i < assets.len() {
            Some(i)
        } else {
            None::<int>
        }),
    decreases assets.len(),
{
    if assets.len() > 0 && i > 0 {
        let t = assets.drop_first();
        assert forall|j: int| 0 <= j < i - 1 implies !same_machine(#[trigger] t[j], host, port, user) by {
            assert(t[j] == assets[j + 1]);
        }
        lemma_conflict_pos(t, host, port, user, i - 1);
    }
}

/// The user name a host is imported with.
pub open spec fn import_user(h: SshConfigHost, local_user: Seq<char>) -> Seq<char> {
    match h.username {
        Some(u) => u@,
        None => local_user,
    }
}

/// The candidate offered for host `h`.
pub open spec fn candidate_of(
    h: SshConfigHost,
    assets: Seq<ConnectionAsset>,
    local_user: Seq<char>,
    c: SshImportCandidate,
) -> bool {
    let user = import_user(h, local_user);
    &&& c.alias == h.alias
    &&& c.host == h.host
    &&& c.port == h.port
    &&& opt_view(c.username) == Some(user)
    &&& c.identity_file == h.identity_file
    &&& c.proxy_jump == h.proxy_jump
    &&& match conflict_pos(assets, h.host@, h.port, user) {
        Some(i) => opt_view(c.conflict_existing_id) == Some(assets[i].id@) && opt_view(
            c.conflict_existing_name,
        ) == Some(assets[i].name@),
        None => c.conflict_existing_id is None && c.conflict_existing_name is None,
    }
}

fn find_conflict(assets: &Vec<ConnectionAsset>, host: &str, port: u16, user: &str) -> (r: Option<usize>)
    ensures
        match r {
            Some(i) => conflict_pos(assets@, host@, port, user@) == Some(i as int) && i < assets@.len(),
            None => conflict_pos(assets@, host@, port, user@) is None,
        },
{
    let mut i: usize = 0;
    while i < assets.len()
        invariant
            i <= assets@.len(),
            forall|j: int| 0 <= j < i ==> !same_machine(#[trigger] assets@[j], host@, port, user@),
        decreases assets.len() - i,
    {
        let a = &assets[i];
        if same_text(a.host.as_str(), host) && a.port == port && same_text(a.username.as_str(), user) {
            proof {
                lemma_conflict_pos(assets@, host@, port, user@, i as int);
            }
            return Some(i);
        }
        i += 1;
    }
    proof {
        lemma_conflict_pos(assets@, host@, port, user@, assets@.len() as int);
    }
    None
}

/// The candidate for one parsed host.
pub fn import_candidate(h: SshConfigHost, assets: &Vec<ConnectionAsset>, local_user: &str) -> (c: SshImportCandidate)
    ensures
        candidate_of(h, assets@, local_user@, c),
{
    let ghost h0 = h;
    let username = match &h.username {
        Some(u) => u.clone(),
        None => local_user.to_owned(),
    };
    let conflict = find_conflict(assets, h.host.as_str(), h.port, username.as_str());
    let (conflict_existing_id, conflict_existing_name) = match conflict {
        Some(i) => (Some(assets[i].id.clone()), Some(assets[i].name.clone())),
        None => (None, None),
    };
    SshImportCandidate {
        alias: h.alias,
        host: h.host,
        port: h.port,
        username: Some(username),
        identity_file: h.identity_file,
        proxy_jump: h.proxy_jump,
        conflict_existing_id,
        conflict_existing_name,
    }
}

/// The import preview of the hosts parsed from `source_path`: one candidate
/// per host, in order (nothing is saved; each import goes through the usual
/// asset creation).
pub fn import_preview(
    source_path: String,
    hosts: Vec<SshConfigHost>,
    assets: &Vec<ConnectionAsset>,
    local_user: &str,
) -> (p: SshImportPreview)
    ensures
        p.source_path == source_path,
        p.candidates@.len() == hosts@.len(),
        forall|k: int|
            0 <= k < hosts@.len() ==> candidate_of(hosts@[k], assets@, local_user@, #[trigger] p.candidates@[k]),
{
    let ghost hs = hosts@;
    let mut candidates: Vec<SshImportCandidate> = Vec::new();
    for h in it: hosts.into_iter()
        invariant
            it.seq() == hs,
            candidates@.len() == it.index(),
            forall|k: int|
                0 <= k < it.index() ==> candidate_of(hs[k], assets@, local_user@, #[trigger] candidates@[k]),
    {
        let ghost k = it.index() as int;
        let c = import_candidate(h, assets, local_user);
        candidates.push(c);
        proof {
            assert(candidates@[k] == c);
        }
    }
    SshImportPreview { source_path, candidates }
}

proof fn lemma_conflict_pos_shape(assets: Seq<ConnectionAsset>, host: Seq<char>, port: u16, user: Seq<char>)
    ensures
        match conflict_pos(assets, host, port, user) {
            Some(i) => 0 <= i < assets.len() && assets[i].host@ == host && assets[i].port == port
                && assets[i].username@ == user,
            None => forall|j: int|
                0 <= j < assets.len() ==> !(#[trigger] assets[j].host@ == host && assets[j].port == port
                    && assets[j].username@ == user),
        },
    decreases assets.len(),
{
    if assets.len() > 0 {
        let t = assets.drop_first();
        lemma_conflict_pos_shape(t, host, port, user);
        if !(assets[0].host@ == host && assets[0].port == port && assets[0].username@ == user) {
            match conflict_pos(t, host, port, user) {
                Some(i) => {
                    assert(assets[i + 1] == t[i]);
                },
                None => {
                    assert forall|j: int| 0 <= j < assets.len() implies !(#[trigger] assets[j].host@ == host
                        && assets[j].port == port && assets[j].username@ == user) by {
                        if j > 0 {
                            assert(assets[j] == t[j - 1]);
                        }
                    }
                },
            }
        }
    }
}

/// Law: an import candidate reports a conflict exactly with a saved asset
/// that has its host, its port and its user name (the configured `User`, or
/// the local user); when none has all three, no conflict is reported. An
/// asset that differs in the port alone is never a conflict.
pub proof fn lemma_conflict_is_same_machine(
    h: SshConfigHost,
    assets: Seq<ConnectionAsset>,
    local_user: Seq<char>,
    c: SshImportCandidate,
)
    requires
        candidate_of(h, assets, local_user, c),
    ensures
        match c.conflict_existing_id {
            Some(id) => exists|i: int|
                0 <= i < assets.len() && #[trigger] assets[i].id@ == id@ && assets[i].host@ == h.host@
                    && assets[i].port == h.port && assets[i].username@ == (match h.username {
                    Some(u) => u@,
                    None => local_user,
                }),
            None => forall|i: int|
                0 <= i < assets.len() ==> !(#[trigger] assets[i].host@ == h.host@ && assets[i].port == h.port
                    && assets[i].username@ == (match h.username {
                    Some(u) => u@,
                    None => local_user,
                })),
        },
{
    let user = import_user(h, local_user);
    lemma_conflict_pos_shape(assets, h.host@, h.port, user);
    match conflict_pos(assets, h.host@, h.port, user) {
        Some(i) => {
            assert(assets[i].id@ == c.conflict_existing_id->0@);
        },
        None => {},
    }
}

} // verus!
