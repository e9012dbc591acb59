use myshelltool::remote_entry::SftpDirEntry;
use myshelltool::sftp_rules::{
    atomic_temp_path, check_read_target, child_removal, check_remove_depth, download_temp_name,
    file_text, is_missing_path_error, list_entry, removal_plan, sort_listing, upload_temp_path,
    ChildRemoval, RemovalPlan, SftpListEntry,
};

fn item(kind: &str, name: &str) -> SftpListEntry {
    SftpListEntry {
        name: name.into(),
        path: format!("/x/{name}"),
        kind: kind.into(),
        size: 0,
        modified: String::new(),
        permissions: None,
    }
}

#[test]
fn directories_first_then_by_name() {
    let v = vec![
        item("file", "b.txt"),
        item("symlink", "a-link"),
        item("directory", "zeta"),
        item("file", "a.txt"),
        item("directory", "alpha"),
    ];
    let names: Vec<String> = sort_listing(v).into_iter().map(|e| e.name).collect();
    assert_eq!(names, vec!["alpha", "zeta", "a.txt", "b.txt", "a-link"]);
}

#[test]
fn list_entry_keeps_the_metadata() {
    let e = list_entry(SftpDirEntry {
        name: "d".into(),
        path: "/d".into(),
        is_dir: true,
        is_symlink: false,
        size: 4096,
        modified: "1".into(),
        permissions: Some(0o40755),
        user: None,
        group: None,
    });
    assert_eq!(e.kind, "directory");
    assert_eq!(e.permissions.as_deref(), Some("0755"));
    assert_eq!(e.size, 4096);
}

#[test]
fn text_reads_refuse_directories_large_and_binary_files() {
    assert_eq!(check_read_target("/etc", true, 0, 10).unwrap_err(), "目标路径是目录而不是文件: /etc");
    let err = check_read_target("/f", false, 11, 10).unwrap_err();
    assert!(err.starts_with("文件过大（11 字节，单次读取上限 10 字节）"), "{err}");
    assert!(check_read_target("/f", false, 10, 10).is_ok());
    assert!(file_text(b"ab\0cd").unwrap_err().contains("二进制内容"));
    let mut late_nul = vec![b'a'; 600];
    late_nul[550] = 0;
    assert!(file_text(&late_nul).is_ok());
    assert_eq!(file_text("héllo".as_bytes()).unwrap(), "héllo");
    assert_eq!(file_text(&[0x66, 0xff]).unwrap(), "f\u{fffd}");
}

#[test]
fn removal_steps() {
    assert_eq!(removal_plan(false, true), RemovalPlan::RemoveFile);
    assert_eq!(removal_plan(true, false), RemovalPlan::RemoveDir);
    assert_eq!(removal_plan(true, true), RemovalPlan::RemoveTree);
    assert!(check_remove_depth("/a", 16).is_ok());
    assert_eq!(check_remove_depth("/a", 17).unwrap_err(), "递归删除超出最大安全深度限制 (16 层): /a");
    assert!(matches!(child_removal("/a", "..", true, false), ChildRemoval::Skip));
    match child_removal("/a//", "b", true, false) {
        ChildRemoval::Descend(p) => assert_eq!(p, "/a/b"),
        r => panic!("{r:?}"),
    }
    match child_removal("/a", "l", true, true) {
        ChildRemoval::RemoveFile(p) => assert_eq!(p, "/a/l"),
        r => panic!("{r:?}"),
    }
}

#[test]
fn temporary_names() {
    assert_eq!(atomic_temp_path("/etc/x", "u1"), "/etc/x.myshelltool.u1.tmp");
    assert_eq!(upload_temp_path("/x", "u2"), "/x.myshelltool.upload.u2.tmp");
    assert_eq!(download_temp_name("a.bin", "u3"), "a.bin.myshelltool.download.u3.tmp");
    assert!(is_missing_path_error("No such file: no such file"));
    assert!(is_missing_path_error("path not found"));
    assert!(!is_missing_path_error("permission denied"));
}

#[test]
fn chmod_modes() {
    assert_eq!(myshelltool::sftp_rules::parse_chmod_mode("644"), Ok(0o644));
    assert_eq!(myshelltool::sftp_rules::parse_chmod_mode(" 0755\n"), Ok(0o755));
    assert_eq!(
        myshelltool::sftp_rules::parse_chmod_mode("4755"),
        Err("权限格式无效：\"4755\"（4 位时首位须 0，setuid/setgid/sticky 位暂不支持）".to_string())
    );
    assert_eq!(
        myshelltool::sftp_rules::parse_chmod_mode("64"),
        Err("权限格式无效：\"64\"（期望 3-4 位八进制，如 644 或 0755）".to_string())
    );
    assert_eq!(
        myshelltool::sftp_rules::parse_chmod_mode("689"),
        Err("权限格式无效：\"689\"（期望 3-4 位八进制，如 644 或 0755）".to_string())
    );
    assert_eq!(
        myshelltool::sftp_rules::parse_chmod_mode("07777"),
        Err("权限格式无效：\"07777\"（期望 3-4 位八进制，如 644 或 0755）".to_string())
    );
}
