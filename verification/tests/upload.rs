//! Uploads from browsers.

use fileshare::server::ServerEvent;
use fileshare::shares::{ShareKind, SharedItem};
use fileshare::time::Timestamp;
use fileshare::upload::{
    accept_field, clean_name, content_length, no_file_response, sanitize_filename,
    upload_temp_name, UploadAction, UploadInput, UploadPhase, UploadTask,
};
use std::path::PathBuf;

fn shared() -> SharedItem {
    SharedItem {
        id: "id".to_string(),
        name: "a.txt".to_string(),
        kind: ShareKind::File,
        size: 2048,
        path: PathBuf::from("/d/a.txt"),
        checksum: String::new(),
        added_at: Timestamp { secs: 0, nanos: 0 },
        download_count: 0,
        download_limit: None,
        expires_at: None,
    }
}

fn started() -> UploadTask {
    let (task, event) =
        UploadTask::start_as("t".to_string(), "a.txt".to_string(), "10.0.0.9".to_string(), 600_000);
    match event {
        ServerEvent::WebUploadStarted { transfer_id, filename, total, by_addr } => {
            assert_eq!(transfer_id, "t");
            assert_eq!(filename, "a.txt");
            assert_eq!(total, 600_000);
            assert_eq!(by_addr, "10.0.0.9");
        }
        other => panic!("{:?}", other),
    }
    task
}

fn receiving() -> UploadTask {
    let mut task = started();
    assert!(matches!(task.step(UploadInput::DirReady), UploadAction::CreateTemp));
    assert!(matches!(task.step(UploadInput::Created), UploadAction::Receive { event: None }));
    task
}

fn failure(action: UploadAction) -> (bool, String) {
    match action {
        UploadAction::Reply { delete_temp, events, response } => {
            assert!(!response.ok);
            assert_eq!(response.name, "a.txt");
            assert_eq!(events.len(), 1);
            assert!(matches!(events[0], ServerEvent::WebUploadFailed { .. }));
            (delete_temp, response.error.unwrap())
        }
        other => panic!("{:?}", other),
    }
}

#[test]
fn names_are_cleaned() {
    assert_eq!(sanitize_filename("a.txt"), "a.txt");
    assert_eq!(sanitize_filename("dir/sub/a?.txt"), "a_.txt");
    assert_eq!(sanitize_filename("a*b|c<d>\"e"), "a_b_c_d__e");
    assert_eq!(sanitize_filename(".."), "upload");
    assert_eq!(sanitize_filename("a/.."), "upload");
    assert_eq!(sanitize_filename(""), "upload");
    assert_eq!(sanitize_filename("."), "upload");
    assert_eq!(sanitize_filename("/"), "upload");
    assert_eq!(sanitize_filename("../../etc/passwd"), "passwd");
    assert_eq!(sanitize_filename("docs/notes."), "notes.");
    assert_eq!(sanitize_filename("docs/..."), "...");
    assert_eq!(sanitize_filename("docs/"), "docs");
    assert_eq!(sanitize_filename("a/b//"), "b");
    assert_eq!(sanitize_filename("a/b/."), "b");
    assert_eq!(sanitize_filename("a/././/"), "a");
    assert_eq!(sanitize_filename("a/../"), "upload");
    assert_eq!(sanitize_filename("/."), "upload");
    assert_eq!(sanitize_filename("a:b?.txt"), "a_b_.txt");
    assert_eq!(sanitize_filename(&sanitize_filename("a:b?.txt")), "a_b_.txt");
    assert_eq!(accept_field(Some("..")), Some("upload".to_string()));
    assert_eq!(clean_name(None), "upload");
    assert_eq!(clean_name(Some("a\\b:c\0".to_string())), "a_b_c_");
    assert_eq!(sanitize_filename("/home/tim/./b c.txt"), "b c.txt");
    assert_eq!(accept_field(Some("sub/x.bin")), Some("x.bin".to_string()));
    assert_eq!(accept_field(Some("x.bin")), Some("x.bin".to_string()));
    assert_eq!(accept_field(Some("")), None);
    assert_eq!(accept_field(None), None);
    assert_eq!(upload_temp_name("a.txt"), ".upload_tmp_a.txt");
}

#[test]
fn announced_lengths() {
    assert_eq!(content_length(&Some("123".to_string())), 123);
    assert_eq!(content_length(&Some("abc".to_string())), 0);
    assert_eq!(content_length(&None), 0);
}

#[test]
fn complete_upload() {
    let mut task = receiving();
    assert!(matches!(task.step(UploadInput::Chunk(262_143)), UploadAction::Receive { event: None }));
    match task.step(UploadInput::Chunk(1)) {
        UploadAction::Receive { event: Some(ServerEvent::WebUploadProgress { bytes_received, total, .. }) } => {
            assert_eq!((bytes_received, total), (262_144, 600_000));
        }
        other => panic!("{:?}", other),
    }
    assert!(matches!(task.step(UploadInput::StreamEnded), UploadAction::MoveTemp));
    assert!(matches!(task.step(UploadInput::Moved), UploadAction::Register));
    match task.step(UploadInput::Registered(shared())) {
        UploadAction::Reply { delete_temp, events, response } => {
            assert!(!delete_temp);
            assert!(matches!(events[0], ServerEvent::WebUploadFinished { .. }));
            assert!(matches!(events[1], ServerEvent::Uploaded { .. }));
            assert!(response.ok);
            assert_eq!(response.id, "id");
            assert_eq!(response.size_human, "2.0 KB");
            assert_eq!(response.error, None);
        }
        other => panic!("{:?}", other),
    }
    assert!(matches!(task.phase, UploadPhase::Ended));
}

#[test]
fn uploads_fail_at_every_step() {
    let e = || "disk full".to_string();
    let got = failure(started().step(UploadInput::DirFailed(e())));
    assert_eq!(got, (false, "Failed to create upload dir: disk full".to_string()));
    let mut task = started();
    task.step(UploadInput::DirReady);
    let got = failure(task.step(UploadInput::CreateFailed(e())));
    assert_eq!(got, (false, "Failed to create temp file: disk full".to_string()));
    let got = failure(receiving().step(UploadInput::WriteFailed(e())));
    assert_eq!(got, (true, "Write error: disk full".to_string()));
    let got = failure(receiving().step(UploadInput::ReadFailed(e())));
    assert_eq!(got, (true, "Read error: disk full".to_string()));
    let mut task = receiving();
    task.step(UploadInput::StreamEnded);
    let got = failure(task.step(UploadInput::MoveFailed(e())));
    assert_eq!(got, (true, "Failed to move file: disk full".to_string()));
    let mut task = receiving();
    task.step(UploadInput::StreamEnded);
    task.step(UploadInput::Moved);
    let got = failure(task.step(UploadInput::RegisterFailed(e())));
    assert_eq!(got, (false, "disk full".to_string()));
}

#[test]
fn transfers_have_random_ids() {
    let (a, _) = UploadTask::start("a".to_string(), String::new(), 0);
    let (b, _) = UploadTask::start("a".to_string(), String::new(), 0);
    assert_eq!(a.transfer_id.len(), 8);
    assert_ne!(a.transfer_id, b.transfer_id);
}

#[test]
fn forms_without_a_file() {
    let r = no_file_response();
    assert!(!r.ok);
    assert_eq!(r.error, Some("No file field found in request".to_string()));
}
