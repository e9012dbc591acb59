use myshelltool::gist::{
    collect_page, fetch_status, gist_request, gist_url, gists_page_url, list_unauthorized,
    sync_payload, DiscoveredGist, FetchStatus, GistFileMeta, GistGetResponse, GistListItem,
    GIST_FILENAME,
};

fn item(id: &str, files: Option<Vec<&str>>) -> GistListItem {
    GistListItem {
        id: id.into(),
        updated_at: Some(format!("t-{id}")),
        files: files.map(|f| f.into_iter().map(String::from).collect()),
    }
}

#[test]
fn request_holds_one_private_sync_file() {
    let r = gist_request("payload".into());
    assert!(!r.public);
    assert_eq!(r.description, "myshelltool connection assets sync (encrypted)");
    assert_eq!(r.files.len(), 1);
    assert_eq!(r.files[0].0, "myshelltool-sync.json");
    assert_eq!(r.files[0].1.content, "payload");
}

#[test]
fn payload_is_the_sync_file() {
    let resp = GistGetResponse {
        updated_at: Some("2024".into()),
        files: Some(vec![
            ("readme.md".into(), GistFileMeta { content: Some("x".into()) }),
            (GIST_FILENAME.into(), GistFileMeta { content: Some("{}".into()) }),
        ]),
    };
    assert_eq!(sync_payload(resp).unwrap(), ("{}".to_string(), Some("2024".to_string())));
    let none = GistGetResponse { updated_at: None, files: Some(vec![]) };
    assert_eq!(sync_payload(none).unwrap_err(), "Gist 中无 sync 文件");
    let empty = GistGetResponse {
        updated_at: None,
        files: Some(vec![(GIST_FILENAME.into(), GistFileMeta { content: None })]),
    };
    assert!(sync_payload(empty).is_err());
}

#[test]
fn statuses_and_urls() {
    assert_eq!(fetch_status(404), FetchStatus::Missing);
    assert_eq!(fetch_status(200), FetchStatus::Success);
    assert_eq!(fetch_status(500), FetchStatus::Failed);
    assert_eq!(gist_url("abc"), "https://api.github.com/gists/abc");
    assert_eq!(gists_page_url(3), "https://api.github.com/gists?per_page=100&page=3");
    assert!(list_unauthorized(401).unwrap().contains("401"));
    assert!(list_unauthorized(403).is_none());
}

#[test]
fn discovery_keeps_gists_with_the_sync_file() {
    let mut found: Vec<DiscoveredGist> = Vec::new();
    let more = collect_page(
        &mut found,
        1,
        vec![item("a", Some(vec!["notes.txt"])), item("b", Some(vec![GIST_FILENAME])), item("c", None)],
    );
    assert!(!more);
    assert_eq!(found.len(), 1);
    assert_eq!(found[0].gist_id, "b");
    assert_eq!(found[0].updated_at.as_deref(), Some("t-b"));
    let full: Vec<GistListItem> = (0..100).map(|i| item(&format!("g{i}"), None)).collect();
    assert!(collect_page(&mut found, 1, full.clone()));
    assert!(!collect_page(&mut found, 10, full));
    assert_eq!(found.len(), 1);
}
