//! What the host answers.

use fileshare::client::{name_in_disposition, range_header, total_of_head};
use fileshare::server::{
    delete_share, download_file, download_folder_file, find_available, folder_manifest,
    list_shares, plan_stream, range_start, stream_head, FileToSend, FolderMember, ProgressMeter,
    Refusal, ServerEvent, ShareInfo, StreamPlan,
};
use fileshare::shares::{ShareKind, ShareRegistry, SharedItem};
use fileshare::time::Timestamp;
use std::path::PathBuf;

fn at(secs: i64) -> Timestamp {
    Timestamp { secs, nanos: 0 }
}

fn item(id: &str, kind: ShareKind) -> SharedItem {
    SharedItem {
        id: id.to_string(),
        name: format!("{}.html", id),
        kind,
        size: 1024,
        path: PathBuf::from(format!("/files/{}", id)),
        checksum: "sum".to_string(),
        added_at: at(1_700_000_000),
        download_count: 0,
        download_limit: Some(1),
        expires_at: None,
    }
}

fn registry() -> ShareRegistry {
    let mut r = ShareRegistry::new(PathBuf::from("/cache"), PathBuf::from("/index.json"));
    r.insert(item("file", ShareKind::File));
    r.insert(item("zip", ShareKind::ZippedFolder));
    r.insert(item("dir", ShareKind::Folder));
    r
}

fn file() -> FileToSend {
    FileToSend {
        path: PathBuf::from("/files/file"),
        total: 1024,
        item_id: "file".to_string(),
        checksum: "sum".to_string(),
        content_type: "text/plain".to_string(),
        filename: "a.txt".to_string(),
    }
}

fn header(headers: &[(String, String)], name: &str) -> Option<String> {
    headers.iter().find(|h| h.0 == name).map(|h| h.1.clone())
}

#[test]
fn listed_shares() {
    let mut r = registry();
    let info = ShareInfo::at(&r.get("file").unwrap(), &at(0));
    assert_eq!(info.kind, "file");
    assert_eq!(info.added_at, "2023-11-14T22:13:20+00:00");
    assert_eq!(info.size_human, "1.0 KB");
    assert!(info.available);
    r.increment_downloads("file");
    let list = list_shares(&r, "alice", &at(0));
    assert_eq!(list.username, "alice");
    assert_eq!(list.items.len(), 2);
    assert!(list.items.iter().any(|i| i.kind == "zipped_folder"));
    assert!(list.items.iter().any(|i| i.kind == "folder"));
}

#[test]
fn ranges_are_understood() {
    let start = |h: &str| range_start(&Some(h.to_string()));
    assert_eq!(start("bytes=512-"), Some(512));
    assert_eq!(start("bytes=512-1023"), Some(512));
    assert_eq!(start("bytes=-5"), None);
    assert_eq!(start("items=1-"), None);
    assert_eq!(range_start(&None), None);
    assert_eq!(start(&range_header(u64::MAX)), Some(u64::MAX));
}

#[test]
fn rest_of_a_file() {
    assert_eq!(plan_stream(10, None), StreamPlan::Whole { length: 10 });
    assert_eq!(plan_stream(10, Some(4)), StreamPlan::Partial { start: 4, length: 6 });
    assert_eq!(plan_stream(10, Some(0)), StreamPlan::Partial { start: 0, length: 10 });
    assert_eq!(plan_stream(10, Some(10)), StreamPlan::Unsatisfiable);
    assert_eq!(plan_stream(0, Some(0)), StreamPlan::Unsatisfiable);
}

#[test]
fn heads_of_responses() {
    let whole = stream_head(&file(), None);
    assert_eq!(whole.status, 200);
    assert_eq!(header(&whole.headers, "content-type"), Some("text/plain".to_string()));
    assert_eq!(
        header(&whole.headers, "content-disposition"),
        Some("attachment; filename=\"a.txt\"".to_string())
    );
    assert_eq!(header(&whole.headers, "content-length"), Some("1024".to_string()));
    assert_eq!(header(&whole.headers, "accept-ranges"), Some("bytes".to_string()));
    assert_eq!(header(&whole.headers, "x-checksum-sha256"), Some("sum".to_string()));
    assert_eq!(header(&whole.headers, "content-range"), None);
    let part = stream_head(&file(), Some(512));
    assert_eq!(part.status, 206);
    assert_eq!(header(&part.headers, "content-length"), Some("512".to_string()));
    assert_eq!(header(&part.headers, "content-range"), Some("bytes 512-1023/1024".to_string()));
    let none = stream_head(&file(), Some(1024));
    assert_eq!(none.status, 416);
    assert_eq!(none.headers, vec![("content-range".to_string(), "bytes */1024".to_string())]);
}

#[test]
fn both_ends_understand_each_other() {
    let part = stream_head(&file(), range_start(&Some(range_header(512))));
    let head = fileshare::client::ResponseHead {
        status: part.status,
        status_text: String::new(),
        checksum: None,
        content_range: header(&part.headers, "content-range"),
        content_length: Some(512),
        disposition: header(&part.headers, "content-disposition"),
    };
    assert_eq!(total_of_head(&head), 1024);
    assert_eq!(name_in_disposition(&head.disposition), Some("a.txt".to_string()));
}

#[test]
fn downloads_are_counted_and_reported() {
    let mut r = registry();
    let (sent, event) = download_file(&mut r, "file", None, "10.0.0.2".to_string(), "html", &at(0));
    let sent = sent.unwrap();
    assert_eq!(sent.content_type, "text/html");
    assert_eq!(sent.filename, "file.html");
    assert_eq!(sent.total, 1024);
    match event {
        Some(ServerEvent::Downloaded { item_name, by_addr }) => {
            assert_eq!(item_name, "file.html");
            assert_eq!(by_addr, "10.0.0.2");
        }
        other => panic!("{:?}", other),
    }
    assert_eq!(r.get("file").unwrap().download_count, 1);
    let (gone, event) = download_file(&mut r, "file", None, String::new(), "html", &at(0));
    assert_eq!(gone.unwrap_err(), Refusal::Gone);
    assert!(event.is_none());
    assert_eq!(r.get("file").unwrap().download_count, 1);
}

#[test]
fn resumed_downloads_are_not_counted() {
    let mut r = registry();
    let (sent, event) = download_file(&mut r, "zip", Some(5), String::new(), "", &at(0));
    let sent = sent.unwrap();
    assert_eq!(sent.content_type, "application/zip");
    assert_eq!(sent.filename, "zip.html.zip");
    assert!(event.is_none());
    assert_eq!(r.get("zip").unwrap().download_count, 0);
}

#[test]
fn files_without_extension_are_bytes() {
    let mut r = registry();
    let (sent, _) = download_file(&mut r, "file", None, String::new(), "", &at(0));
    assert_eq!(sent.unwrap().content_type, "application/octet-stream");
}

#[test]
fn refusals_say_why() {
    let mut r = registry();
    let (none, event) = download_file(&mut r, "nothing", None, String::new(), "", &at(0));
    let none = none.unwrap_err();
    assert_eq!((none.status(), none.text()), (404, "Share not found"));
    assert!(event.is_none());
    let (folder, event) = download_file(&mut r, "dir", None, String::new(), "", &at(0));
    let folder = folder.unwrap_err();
    assert_eq!(folder.status(), 400);
    assert!(folder.text().starts_with("This share is a folder \u{2014} fetch /shares/{id}/manifest"));
    assert!(event.is_some());
    assert_eq!(Refusal::Gone.status(), 410);
    assert_eq!(Refusal::Gone.text(), "Share is no longer available");
    assert_eq!((Refusal::Unreadable.status(), Refusal::Unreadable.text()), (500, "Failed to open file"));
    assert_eq!((Refusal::SeekFailed.status(), Refusal::SeekFailed.text()), (416, "Seek failed"));
    assert_eq!((Refusal::NoSuchFile.status(), Refusal::NoSuchFile.text()), (404, "File not found in folder"));
    assert!(find_available(&r, "zip", &at(0)).is_ok());
}

#[test]
fn folders_are_sent_file_by_file() {
    let r = registry();
    let folder = folder_manifest(&r, "dir", &at(0)).unwrap();
    let refused = folder_manifest(&r, "file", &at(0)).unwrap_err();
    assert_eq!(refused, Refusal::NotFolder);
    assert_eq!(refused.text(), "This share is not a raw folder; use /download/{id} instead");
    let member = FolderMember {
        path: PathBuf::from("/files/dir/sub/a.png"),
        size: 7,
        file_name: Some("a.png".to_string()),
        extension: "png".to_string(),
    };
    let (sent, event) =
        download_folder_file(&folder, "sub/a.png", Some(member), None, "10.0.0.2".to_string());
    let sent = sent.unwrap();
    assert_eq!(sent.content_type, "image/png");
    assert_eq!(sent.filename, "a.png");
    assert_eq!(sent.checksum, "");
    assert_eq!(header(&stream_head(&sent, None).headers, "x-checksum-sha256"), None);
    assert_eq!(header(&stream_head(&sent, Some(2)).headers, "x-checksum-sha256"), None);
    match event {
        Some(ServerEvent::Downloaded { item_name, .. }) => assert_eq!(item_name, "dir.html/sub/a.png"),
        other => panic!("{:?}", other),
    }
    let (none, event) = download_folder_file(&folder, "x", None, None, String::new());
    assert_eq!(none.unwrap_err(), Refusal::NoSuchFile);
    assert!(event.is_none());
}

#[test]
fn sent_bytes_are_reported() {
    let mut m = ProgressMeter::new("id".to_string(), 200_000, 1_000);
    assert!(m.sent(65_535).is_none());
    match m.sent(1) {
        Some(ServerEvent::UploadProgress { bytes_sent, total, .. }) => {
            assert_eq!((bytes_sent, total), (66_536, 200_000));
        }
        other => panic!("{:?}", other),
    }
    assert!(m.sent(10).is_none());
    assert!(m.sent(133_454).is_some());
    assert_eq!(m.bytes_sent, 200_000);
    assert!(matches!(m.done(), ServerEvent::UploadDone { .. }));
}

#[test]
fn shares_are_deleted_on_request() {
    let mut r = registry();
    let gone = delete_share(&mut r, "zip").unwrap();
    assert_eq!(gone.archive, Some(PathBuf::from("/files/zip")));
    assert!(matches!(gone.event, ServerEvent::Deleted { .. }));
    let gone = delete_share(&mut r, "file").unwrap();
    assert_eq!(gone.archive, None);
    assert_eq!(delete_share(&mut r, "file").unwrap_err(), Refusal::NotFound);
    assert_eq!(r.list().len(), 1);
}
