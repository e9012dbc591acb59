//! Remote directory entries as the file panels show them.
//!
//! An SFTP listing entry, read by the caller from the SSH library into plain
//! values, becomes a `RemoteFileEntry`: its kind (`directory`, `symlink` or
//! `file`) and its permission bits as four octal digits.
use vstd::prelude::*;

use crate::text::{digit_char, string_of};

verus! {

/// What an SFTP directory listing says of one entry.
pub struct SftpDirEntry {
    pub name: String,
    pub path: String,
    pub is_dir: bool,
    pub is_symlink: bool,
    pub size: u64,
    /// Modification time as Unix seconds, already formatted.
    pub modified: String,
    /// The mode word (file type and permission bits), when the server sent it.
    pub permissions: Option<u32>,
    pub user: Option<String>,
    pub group: Option<String>,
}

/// One entry of a remote directory listing.
#[derive(Debug, Clone)]
pub struct RemoteFileEntry {
    pub name: String,
    pub path: String,
    pub kind: String,
    pub size: u64,
    pub modified: String,
    /// Permission bits as four octal digits (`"0755"`), when known.
    pub permissions: Option<String>,
    pub user: Option<String>,
    pub group: Option<String>,
}

pub open spec fn kind_name(is_dir: bool, is_symlink: bool) -> Seq<char> {
    if is_dir {
        "directory"@
    } else if is_symlink {
        "symlink"@
    } else {
        "file"@
    }
}

/// The permission bits of mode `p` (its low twelve bits) as four octal digits.
pub open spec fn octal_mode(p: u32) -> Seq<char> {
    let m = p % 4096;
    seq![
        digit_char((m / 512) as nat),
        digit_char(((m / 64) % 8) as nat),
        digit_char(((m / 8) % 8) as nat),
        digit_char((m % 8) as nat),
    ]
}

fn octal_digit(d: u32) -> (c: char)
    requires
        d < 8,
    ensures
        c == digit_char(d as nat),
{
    (48u8 + d as u8) as char
}

/// `format!("{:04o}", p & 0o7777)`: the permission bits of a mode word.
pub fn permission_text(p: u32) -> (r: String)
    ensures
        r@ == octal_mode(p),
{
    let m = p % 4096;
    let v = vec![octal_digit(m / 512), octal_digit((m / 64) % 8), octal_digit((m / 8) % 8), octal_digit(m % 8)];
    assert(v@ =~= octal_mode(p));
    string_of(v.as_slice())
}

/// The panel entry for an SFTP listing entry.
pub fn dir_entry_to_remote_file_entry(e: SftpDirEntry) -> (r: RemoteFileEntry)
    ensures
        r.name == e.name,
        r.path == e.path,
        r.kind@ == kind_name(e.is_dir, e.is_symlink),
        r.size == e.size,
        r.modified == e.modified,
        match e.permissions {
            Some(p) => r.permissions matches Some(s) && s@ == octal_mode(p),
            None => r.permissions is None,
        },
        r.user == e.user,
        r.group == e.group,
{
    let kind = if e.is_dir {
        "directory"
    } else if e.is_symlink {
        "symlink"
    } else {
        "file"
    };
    let permissions = match e.permissions {
        Some(p) => Some(permission_text(p)),
        None => None,
    };
    RemoteFileEntry {
        name: e.name,
        path: e.path,
        kind: kind.to_owned(),
        size: e.size,
        modified: e.modified,
        permissions,
        user: e.user,
        group: e.group,
    }
}

} // verus!
