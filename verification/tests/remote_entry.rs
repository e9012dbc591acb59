use myshelltool::remote_entry::{dir_entry_to_remote_file_entry, permission_text, SftpDirEntry};

fn entry(is_dir: bool, is_symlink: bool, permissions: Option<u32>) -> SftpDirEntry {
    SftpDirEntry {
        name: "x".into(),
        path: "/tmp/x".into(),
        is_dir,
        is_symlink,
        size: 42,
        modified: "1700000000".into(),
        permissions,
        user: Some("root".into()),
        group: None,
    }
}

#[test]
fn permission_bits_are_four_octal_digits() {
    assert_eq!(permission_text(0o100755), "0755");
    assert_eq!(permission_text(0o40700), "0700");
    assert_eq!(permission_text(0o104755), "4755");
    assert_eq!(permission_text(0), "0000");
    assert_eq!(permission_text(0o644), format!("{:04o}", 0o644 & 0o7777));
}

#[test]
fn kinds_follow_the_file_type() {
    assert_eq!(dir_entry_to_remote_file_entry(entry(true, false, None)).kind, "directory");
    assert_eq!(dir_entry_to_remote_file_entry(entry(false, true, None)).kind, "symlink");
    let f = dir_entry_to_remote_file_entry(entry(false, false, Some(0o100600)));
    assert_eq!(f.kind, "file");
    assert_eq!(f.permissions.as_deref(), Some("0600"));
    assert_eq!(f.size, 42);
    assert_eq!(f.user.as_deref(), Some("root"));
    assert_eq!(f.group, None);
    assert_eq!(f.modified, "1700000000");
}
