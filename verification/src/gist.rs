//! The GitHub Gist exchanges of synchronisation: the requests sent, how a
//! response is read, and how backups are discovered among the user's Gists.
//!
//! The HTTP calls and JSON parsing are the caller's part; responses reach
//! these functions as plain values.
use vstd::prelude::*;

use crate::text::{chars_of, decimal, push_decimal, push_str, same_text, string_of};

verus! {

/// The API root.
pub const GITHUB_API_BASE: &'static str = "https://api.github.com";

/// The file of a Gist that holds the encrypted payload (backups are found by it).
pub const GIST_FILENAME: &'static str = "myshelltool-sync.json";

/// The description of the backup Gist.
pub const GIST_DESCRIPTION: &'static str = "myshelltool connection assets sync (encrypted)";

/// One file of a Gist being written.
#[derive(Debug, Clone)]
pub struct GistFileContent {
    pub content: String,
}

/// The body of a create or update request.
#[derive(Debug, Clone)]
pub struct CreateGistRequest {
    pub description: String,
    pub public: bool,
    /// File name and content.
    pub files: Vec<(String, GistFileContent)>,
}

/// The private Gist holding `content` as the sync file.
pub fn gist_request(content: String) -> (r: CreateGistRequest)
    ensures
        r.description@ == GIST_DESCRIPTION@,
        !r.public,
        r.files@.len() == 1,
        r.files@[0].0@ == GIST_FILENAME@,
        r.files@[0].1.content == content,
{
    let files = vec![(GIST_FILENAME.to_owned(), GistFileContent { content })];
    CreateGistRequest { description: GIST_DESCRIPTION.to_owned(), public: false, files }
}

/// What creating or updating a Gist answers.
#[derive(Debug, Clone)]
pub struct GistResponse {
    pub id: String,
    pub updated_at: Option<String>,
}

/// A file of a fetched Gist.
#[derive(Debug, Clone)]
pub struct GistFileMeta {
    pub content: Option<String>,
}

/// What fetching a Gist answers.
#[derive(Debug, Clone)]
pub struct GistGetResponse {
    pub updated_at: Option<String>,
    pub files: Option<Vec<(String, GistFileMeta)>>,
}

/// Position of the sync file with content among `files`.
pub open spec fn sync_file_pos(files: Seq<(String, GistFileMeta)>) -> Option<int>
    decreases files.len(),
{
    if files.len() == 0 {
        None
    } else if files[0].0@ == GIST_FILENAME@ {
        Some(0)
    } else {
        match sync_file_pos(files.drop_first()) {
            Some(i) => Some(i + 1),
            None => None,
        }
    }
}

proof fn lemma_sync_file_pos(files: Seq<(String, GistFileMeta)>, i: int)
    requires
        0 <= i <= files.len(),
        forall|j: int| 0 <= j < i ==> (#[trigger] files[j]).0@ != GIST_FILENAME@,
        i < files.len() ==> files[i].0@ == GIST_FILENAME@,
    ensures
        sync_file_pos(files) == (if i < files.len() {
            Some(i)
        } else {
            None::<int>
        }),
    decreases files.len(),
{
    if files.len() > 0 && i > 0 {
        let t = files.drop_first();
        assert forall|j: int| 0 <= j < i - 1 implies (#[trigger] t[j]).0@ != GIST_FILENAME@ by {
            assert(t[j] == files[j + 1]);
        }
        lemma_sync_file_pos(t, i - 1);
    }
}

pub open spec fn no_sync_file_text() -> Seq<char> {
    "Gist 中无 sync 文件"@
}

/// The payload and update time of a fetched Gist: its sync file's content;
/// a Gist without that file (or with it empty of content) is an error.
pub fn sync_payload(resp: GistGetResponse) -> (r: Result<(String, Option<String>), String>)
    ensures
        match resp.files {
            Some(files) => match sync_file_pos(files@) {
                Some(i) => match files@[i].1.content {
                    Some(c) => r == Ok::<(String, Option<String>), String>((c, resp.updated_at)),
                    None => r matches Err(e) && e@ == no_sync_file_text(),
                },
                None => r matches Err(e) && e@ == no_sync_file_text(),
            },
            None => r matches Err(e) && e@ == no_sync_file_text(),
        },
{
    let missing = string_of(chars_of("Gist 中无 sync 文件").as_slice());
    match &resp.files {
        None => Err(missing),
        Some(files) => match find_sync_file(files) {
            None => Err(missing),
            Some(k) => match &files[k].1.content {
                Some(c) => Ok((c.clone(), resp.updated_at)),
                None => Err(missing),
            },
        },
    }
}

fn find_sync_file(files: &Vec<(String, GistFileMeta)>) -> (r: Option<usize>)
    ensures
        match r {
            Some(k) => sync_file_pos(files@) == Some(k as int) && k < files@.len(),
            None => sync_file_pos(files@) is None,
        },
{
    let mut k: usize = 0;
    while k < files.len()
        invariant
            k <= files@.len(),
            forall|j: int| 0 <= j < k ==> (#[trigger] files@[j]).0@ != GIST_FILENAME@,
        decreases files.len() - k,
    {
        if same_text(files[k].0.as_str(), GIST_FILENAME) {
            proof {
                lemma_sync_file_pos(files@, k as int);
            }
            return Some(k);
        }
        k += 1;
    }
    proof {
        lemma_sync_file_pos(files@, files@.len() as int);
    }
    None
}

/// How a fetch went, judged by the HTTP status.
#[derive(Debug, Clone, Copy, PartialEq, Eq, Structural)]
pub enum FetchStatus {
    /// 404: the Gist is gone.
    Missing,
    /// Another status outside 2xx: an error.
    Failed,
    /// 2xx: read the body.
    Success,
}

/// A fetch answered 404 finds no Gist (it may have been deleted by hand);
/// any other status outside 2xx is an error.
pub fn fetch_status(status: u16) -> (r: FetchStatus)
    ensures
        status == 404 ==> r == FetchStatus::Missing,
        status != 404 && 200 <= status < 300 ==> r == FetchStatus::Success,
        status != 404 && !(200 <= status < 300) ==> r == FetchStatus::Failed,
{
    if status == 404 {
        FetchStatus::Missing
    } else if 200 <= status && status < 300 {
        FetchStatus::Success
    } else {
        FetchStatus::Failed
    }
}

/// The URL of Gist `gist_id`.
pub fn gist_url(gist_id: &str) -> (r: String)
    ensures
        r@ == GITHUB_API_BASE@ + "/gists/"@ + gist_id@,
{
    let mut v = chars_of(GITHUB_API_BASE);
    push_str(&mut v, "/gists/");
    push_str(&mut v, gist_id);
    string_of(v.as_slice())
}

/// The URL of page `page` of the user's Gists (100 per page).
pub fn gists_page_url(page: u32) -> (r: String)
    ensures
        r@ == GITHUB_API_BASE@ + "/gists?per_page=100&page="@ + decimal(page as nat),
{
    let mut v = chars_of(GITHUB_API_BASE);
    push_str(&mut v, "/gists?per_page=100&page=");
    push_decimal(&mut v, page as u128);
    string_of(v.as_slice())
}

/// At most this many pages of Gists are read when discovering backups.
pub const MAX_GIST_PAGES: u32 = 10;

/// One Gist of the user's list: only the names of its files are looked at.
#[derive(Debug, Clone)]
pub struct GistListItem {
    pub id: String,
    pub updated_at: Option<String>,
    pub files: Option<Vec<String>>,
}

/// A backup found among the user's Gists.
#[derive(Debug, Clone)]
pub struct DiscoveredGist {
    pub gist_id: String,
    pub updated_at: Option<String>,
}

pub open spec fn holds_sync_file(g: GistListItem) -> bool {
    match g.files {
        Some(f) => exists|j: int| 0 <= j < f@.len() && (#[trigger] f@[j])@ == GIST_FILENAME@,
        None => false,
    }
}

/// The backups of one page: the Gists that hold the sync file (found by its
/// name, which users do not edit, rather than by the description).
pub open spec fn backups_of(items: Seq<GistListItem>) -> Seq<GistListItem>
    decreases items.len(),
{
    if items.len() == 0 {
        Seq::<GistListItem>::empty()
    } else {
        let p = backups_of(items.drop_last());
        if holds_sync_file(items.last()) {
            p.push(items.last())
        } else {
            p
        }
    }
}

fn lists_sync_file(f: &Vec<String>) -> (r: bool)
    ensures
        r == exists|j: int| 0 <= j < f@.len() && (#[trigger] f@[j])@ == GIST_FILENAME@,
{
    let mut k: usize = 0;
    while k < f.len()
        invariant
            k <= f@.len(),
            forall|j: int| 0 <= j < k ==> (#[trigger] f@[j])@ != GIST_FILENAME@,
        decreases f.len() - k,
    {
        if same_text(f[k].as_str(), GIST_FILENAME) {
            assert(f@[k as int]@ == GIST_FILENAME@);
            return true;
        }
        k += 1;
    }
    false
}

fn has_sync_file(g: &GistListItem) -> (r: bool)
    ensures
        r == holds_sync_file(*g),
{
    match &g.files {
        Some(f) => lists_sync_file(f),
        None => false,
    }
}

/// Adds the backups of one page to `found`; returns whether more pages are
/// to be read (a full page of 100, and fewer than `MAX_GIST_PAGES` read).
pub fn collect_page(found: &mut Vec<DiscoveredGist>, page: u32, items: Vec<GistListItem>) -> (more: bool)
    ensures
        more == (items@.len() >= 100 && page < MAX_GIST_PAGES),
        final(found)@.len() == old(found)@.len() + backups_of(items@).len(),
        forall|i: int|
            0 <= i < backups_of(items@).len() ==> (#[trigger] final(found)@[old(found)@.len() + i]).gist_id
                == backups_of(items@)[i].id && final(found)@[old(found)@.len() + i].updated_at
                == backups_of(items@)[i].updated_at,
        forall|i: int| 0 <= i < old(found)@.len() ==> #[trigger] final(found)@[i] == old(found)@[i],
{
    let full = items.len() >= 100;
    let ghost src = items@;
    let ghost start = found@;
    for g in it: items.into_iter()
        invariant
            it.seq() == src,
            found@.len() == start.len() + backups_of(src.take(it.index() as int)).len(),
            forall|i: int| 0 <= i < start.len() ==> #[trigger] found@[i] == start[i],
            forall|i: int|
                0 <= i < backups_of(src.take(it.index() as int)).len() ==> (#[trigger] found@[start.len()
                    + i]).gist_id == backups_of(src.take(it.index() as int))[i].id && found@[start.len()
                    + i].updated_at == backups_of(src.take(it.index() as int))[i].updated_at,
    {
        let ghost k = it.index() as int;
        proof {
            assert(src.take(k + 1).drop_last() =~= src.take(k));
            assert(src.take(k + 1).last() == g);
        }
        if has_sync_file(&g) {
            found.push(DiscoveredGist { gist_id: g.id, updated_at: g.updated_at });
        }
    }
    proof {
        assert(src.take(src.len() as int) =~= src);
    }
    full && page < MAX_GIST_PAGES
}

pub open spec fn unauthorized_text() -> Seq<char> {
    "GitHub 授权已失效（401），请在同步面板「账号」中重新登录"@
}

/// A 401 while listing means the token was revoked: the user is sent to log
/// in again rather than shown a bare HTTP error.
pub fn list_unauthorized(status: u16) -> (r: Option<String>)
    ensures
        status == 401 ==> (r matches Some(e) && e@ == unauthorized_text()),
        status != 401 ==> r is None,
{
    if status == 401 {
        Some(string_of(chars_of("GitHub 授权已失效（401），请在同步面板「账号」中重新登录").as_slice()))
    } else {
        None
    }
}

} // verus!
