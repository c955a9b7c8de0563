//! The user interface: keys and events.

use fileshare::client::{
    DownloadControl, DownloadProgress, DownloadResult, Measure, RemoteShareInfo,
};
use fileshare::config::Config;
use fileshare::discovery::PeerRegistry;
use fileshare::server::ServerEvent;
use fileshare::shares::{ShareKind, ShareRegistry, SharedItem};
use fileshare::time::{Clock, Timestamp};
use fileshare::tui::app::{split_typed_address, App};
use fileshare::tui::input::{Key, Typing};
use fileshare::tui::state::{
    AppEvent, DownloadState, Effect, Focus, LogKind, UploadKind, ZipConfirmRequest,
};
use fileshare::tui::theme::{theme, SpeedUnit};
use std::path::PathBuf;

const SECOND: u64 = 1_000_000_000;

fn at(secs: u64) -> Clock {
    Clock {
        mono: (1_000 + secs) * SECOND,
        wall: Timestamp { secs: 1_700_000_000 + secs as i64, nanos: 0 },
    }
}

fn share(id: &str, kind: ShareKind, added: i64) -> SharedItem {
    SharedItem {
        id: id.to_string(),
        name: format!("{}.txt", id),
        kind,
        size: 10,
        path: PathBuf::from(format!("/files/{}", id)),
        checksum: String::new(),
        added_at: Timestamp { secs: added, nanos: 0 },
        download_count: 0,
        download_limit: None,
        expires_at: None,
    }
}

fn make() -> App {
    let mut config = Config::initial(PathBuf::from("/downloads"));
    config.theme_idx = 99;
    let mut peers = PeerRegistry::new();
    peers.upsert_at("10.0.0.2".to_string(), 7777, "bob".to_string(), 1, &at(0).wall);
    let mut shares = ShareRegistry::new(PathBuf::from("/cache"), PathBuf::from("/index.json"));
    shares.insert(share("old", ShareKind::ZippedFolder, 1));
    shares.insert(share("new", ShareKind::File, 2));
    App::new(config, peers, shares, &at(0))
}

fn remote(id: &str, available: bool) -> RemoteShareInfo {
    RemoteShareInfo {
        id: id.to_string(),
        name: format!("{}.bin", id),
        kind: "file".to_string(),
        size: 5,
        size_human: "5 B".to_string(),
        available,
    }
}

fn press(app: &mut App, key: Key) -> Vec<Effect> {
    app.handle_key(key, &at(0))
}

fn chars(app: &mut App, text: &str) -> Vec<Effect> {
    let mut last = Vec::new();
    for c in text.chars() {
        last = press(app, Key::Char(c));
    }
    last
}

fn last_log(app: &App) -> (String, LogKind) {
    let e = app.log.last().unwrap();
    (e.message.clone(), e.kind)
}

fn server(app: &mut App, e: ServerEvent, secs: u64) -> Vec<Effect> {
    app.handle_event(AppEvent::ServerEvent(e), &at(secs))
}

#[test]
fn panels_and_switches() {
    let mut app = make();
    assert_eq!(app.theme_idx, 4);
    assert_eq!(app.focus, Focus::PeerList);
    for f in [Focus::PeerFiles, Focus::MyShares, Focus::Transfers, Focus::PeerList] {
        press(&mut app, Key::Tab);
        assert_eq!(app.focus, f);
    }
    press(&mut app, Key::BackTab);
    assert_eq!(app.focus, Focus::Transfers);
    press(&mut app, Key::Char('?'));
    assert!(app.show_help);
    press(&mut app, Key::Char('r'));
    assert!(app.show_qr && !app.show_help);
    press(&mut app, Key::Tab);
    assert!(app.show_qr);
    press(&mut app, Key::Esc);
    assert!(!app.show_qr);
    press(&mut app, Key::Char('u'));
    assert_eq!(app.speed_unit, SpeedUnit::Bits);
    assert_eq!(app.speed_unit.label(), "Mb/s");
    assert_eq!(app.speed_unit.toggle().label(), "MB/s");
    press(&mut app, Key::Char('t'));
    assert_eq!(app.theme_idx, 0);
    assert_eq!(last_log(&app).0, "Theme: Ocean");
    assert_eq!(theme(1).name, "Dracula");
}

#[test]
fn peers_are_browsed() {
    let mut app = make();
    match &press(&mut app, Key::Enter)[..] {
        [Effect::FetchPeerFiles { base_url }] => assert_eq!(base_url, "https://10.0.0.2:7777"),
        other => panic!("{:?}", other),
    }
    assert_eq!(app.focus, Focus::PeerFiles);
    assert!(app.peer_files_loading);
    app.handle_event(AppEvent::PeerFilesLoaded(vec![remote("a", true), remote("b", false)]), &at(0));
    assert!(!app.peer_files_loading);
    press(&mut app, Key::Down);
    assert_eq!(app.peer_files_state, 1);
    assert!(press(&mut app, Key::Enter).is_empty());
    press(&mut app, Key::Down);
    assert_eq!(app.peer_files_state, 0);
    match &press(&mut app, Key::Char('d'))[..] {
        [Effect::StartDownload { base_url, id, name, dir }] => {
            assert_eq!(base_url, "https://10.0.0.2:7777");
            assert_eq!((id.as_str(), name.as_str()), ("a", "a.bin"));
            assert_eq!(dir, &PathBuf::from("/downloads"));
        }
        other => panic!("{:?}", other),
    }
    assert_eq!(app.active_downloads.len(), 1);
    assert_eq!(last_log(&app).0, "Downloading 'a.bin'…");
    assert!(press(&mut app, Key::Char('d')).is_empty());
    assert_eq!(app.active_downloads.len(), 1);
    assert_eq!(last_log(&app).0, "'a.bin' is already downloading");
    press(&mut app, Key::Left);
    assert_eq!(app.focus, Focus::PeerList);
}

#[test]
fn only_manual_peers_are_removed() {
    let mut app = make();
    press(&mut app, Key::Char('x'));
    assert_eq!(last_log(&app), ("Only manually added peers can be removed".to_string(), LogKind::Warning));
    press(&mut app, Key::Char('m'));
    assert_eq!(app.typing(), Typing::Address);
    chars(&mut app, "192.168.1.42:80");
    press(&mut app, Key::Backspace);
    match &press(&mut app, Key::Enter)[..] {
        [Effect::ResolveAddress { text, port }] => assert_eq!((text.as_str(), *port), ("192.168.1.42", 8)),
        other => panic!("{:?}", other),
    }
    assert!(app.manual_ip_input.is_none());
    assert_eq!(app.typing(), Typing::Nothing);
    app.handle_event(
        AppEvent::AddressResolved {
            text: "192.168.1.42".to_string(),
            port: 8,
            addr: Some("192.168.1.42".to_string()),
        },
        &at(0),
    );
    assert_eq!(last_log(&app).0, "Added manual peer 192.168.1.42:8");
    assert_eq!(app.peer_list().len(), 2);
    app.peer_list_state = 1;
    press(&mut app, Key::Delete);
    assert_eq!(last_log(&app).0, "Removed manual peer 192.168.1.42:8");
    assert_eq!(app.peer_list().len(), 1);
    assert_eq!(app.peer_list_state, 0);
    app.handle_event(
        AppEvent::AddressResolved { text: "nowhere".to_string(), port: 1, addr: None },
        &at(0),
    );
    assert_eq!(last_log(&app), ("Invalid IP address: nowhere".to_string(), LogKind::Warning));
}

#[test]
fn typed_addresses() {
    assert_eq!(split_typed_address("10.0.0.1"), ("10.0.0.1".to_string(), 7777));
    assert_eq!(split_typed_address("10.0.0.1:80"), ("10.0.0.1".to_string(), 80));
    assert_eq!(split_typed_address("10.0.0.1:x"), ("10.0.0.1".to_string(), 7777));
    assert_eq!(split_typed_address("10.0.0.1:70000"), ("10.0.0.1".to_string(), 7777));
    assert_eq!(split_typed_address("fe80::1"), ("fe80::1".to_string(), 7777));
}

#[test]
fn shares_are_removed() {
    let mut app = make();
    app.focus = Focus::MyShares;
    press(&mut app, Key::Down);
    assert_eq!(app.my_shares_state, 1);
    match &press(&mut app, Key::Char('x'))[..] {
        [Effect::DeleteFile { path }, Effect::FlushIndex] => {
            assert_eq!(path, &PathBuf::from("/files/old"));
        }
        other => panic!("{:?}", other),
    }
    assert_eq!(last_log(&app).0, "Removed 'old.txt' from shares");
    assert_eq!(app.my_shares().len(), 1);
    assert!(matches!(press(&mut app, Key::Char('x'))[..], [Effect::FlushIndex]));
    assert!(press(&mut app, Key::Char('x')).is_empty());
}

#[test]
fn paths_are_typed() {
    let mut app = make();
    app.focus = Focus::MyShares;
    press(&mut app, Key::Char('m'));
    chars(&mut app, "/qr");
    assert_eq!(app.manual_path_input, Some("/qr".to_string()));
    assert_eq!(app.typing(), Typing::Path);
    app.show_qr = true;
    assert_eq!(app.typing(), Typing::Nothing);
    app.show_qr = false;
    match &press(&mut app, Key::Enter)[..] {
        [Effect::AddPath { text }] => assert_eq!(text, "/qr"),
        other => panic!("{:?}", other),
    }
    match &app.handle_event(AppEvent::AddShare(PathBuf::from("/qr")), &at(0))[..] {
        [Effect::SharePath { path }] => assert_eq!(path, &PathBuf::from("/qr")),
        other => panic!("{:?}", other),
    }
    press(&mut app, Key::Char('m'));
    press(&mut app, Key::Esc);
    assert!(app.manual_path_input.is_none());
}

#[test]
fn zip_question_is_answered() {
    let mut app = make();
    let ask = |app: &mut App| {
        app.handle_event(
            AppEvent::ZipConfirmNeeded(ZipConfirmRequest {
                path: PathBuf::from("/d"),
                folder_name: "d".to_string(),
                file_count: 1,
                total_size: 2,
                would_zip: false,
            }),
            &at(0),
        );
    };
    ask(&mut app);
    assert!(press(&mut app, Key::Tab).is_empty());
    assert_eq!(app.focus, Focus::PeerList);
    assert!(matches!(press(&mut app, Key::Char('Y'))[..], [Effect::AnswerZip { zip: true, .. }]));
    assert!(app.zip_confirm.is_none());
    ask(&mut app);
    assert!(matches!(press(&mut app, Key::Char('n'))[..], [Effect::AnswerZip { zip: false, .. }]));
    ask(&mut app);
    assert!(press(&mut app, Key::Esc).is_empty());
    assert!(app.zip_confirm.is_none());
    let effects = app.handle_event(AppEvent::ZipConfirmResult(PathBuf::from("/d"), true), &at(0));
    assert!(matches!(effects[..], [Effect::ShareWithChoice { zip: true, .. }]));
}

#[test]
fn zipping_takes_one_log_entry() {
    let mut app = make();
    let progress = |app: &mut App, done: usize| {
        app.handle_event(
            AppEvent::ZipProgress { folder: "my_project".to_string(), done, total: 847 },
            &at(1),
        );
    };
    progress(&mut app, 0);
    assert_eq!(last_log(&app).0, "📦 Zipping 'my_project' [░░░░░░░░░░░░░░░░░░░░] 0/847 files (0%)");
    progress(&mut app, 423);
    assert_eq!(app.log.len(), 1);
    assert_eq!(last_log(&app).0, "📦 Zipping 'my_project' [█████████░░░░░░░░░░░] 423/847 files (50%)");
    app.handle_event(AppEvent::ShareAdded(share("s", ShareKind::ZippedFolder, 3)), &at(2));
    assert_eq!(last_log(&app), ("✓ Shared 's.txt' (10 B)".to_string(), LogKind::Success));
    progress(&mut app, 1);
    assert_eq!(app.log.len(), 3);
    app.handle_event(AppEvent::ShareError("no".to_string()), &at(2));
    assert_eq!(last_log(&app), ("✗ Share failed: no".to_string(), LogKind::Warning));
    app.handle_event(
        AppEvent::ZipProgress { folder: "empty".to_string(), done: 0, total: 0 },
        &at(3),
    );
    assert_eq!(last_log(&app).0, "📦 Zipping 'empty' [░░░░░░░░░░░░░░░░░░░░] 0/0 files (0%)");
}

#[test]
fn zip_entry_is_followed_through_a_full_log() {
    let mut app = make();
    for i in 0..200 {
        app.log(format!("entry {}", i), LogKind::Info, &at(0));
    }
    let progress = |app: &mut App, done: usize| {
        app.handle_event(
            AppEvent::ZipProgress { folder: "f".to_string(), done, total: 4 },
            &at(1),
        );
    };
    progress(&mut app, 1);
    assert_eq!(app.zip_progress_log_idx, Some(199));
    app.log("x".to_string(), LogKind::Info, &at(1));
    assert_eq!(app.zip_progress_log_idx, Some(198));
    progress(&mut app, 2);
    assert_eq!(last_log(&app).0, "x");
    assert!(app.log[198].message.ends_with("2/4 files (50%)"));
    assert_eq!(app.log.len(), 200);
    assert_eq!(app.log.iter().filter(|e| e.message.contains("Zipping")).count(), 1);
    for i in 0..199 {
        app.log(format!("later {}", i), LogKind::Info, &at(2));
    }
    assert_eq!(app.zip_progress_log_idx, None);
    progress(&mut app, 3);
    assert!(last_log(&app).0.ends_with("3/4 files (75%)"));
}

#[test]
fn keys_leave_the_lists_in_order() {
    let mut app = make();
    for addr in ["10.0.0.3", "10.0.0.4", "10.0.0.5"] {
        app.peers.add_manual_at(addr.to_string(), 1, &at(0).wall);
    }
    let order = |app: &App| -> Vec<String> {
        app.peer_list().into_iter().map(|p| p.addr).collect()
    };
    assert_eq!(order(&app), ["10.0.0.2", "10.0.0.3", "10.0.0.4", "10.0.0.5"]);
    for key in [Key::Tab, Key::BackTab, Key::Down, Key::Down, Key::Up, Key::Char('u')] {
        press(&mut app, key);
        assert_eq!(order(&app), ["10.0.0.2", "10.0.0.3", "10.0.0.4", "10.0.0.5"]);
    }
    app.peer_list_state = 1;
    press(&mut app, Key::Char('x'));
    assert_eq!(order(&app), ["10.0.0.2", "10.0.0.4", "10.0.0.5"]);
    app.handle_event(
        AppEvent::AddressResolved {
            text: "10.0.0.4".to_string(),
            port: 1,
            addr: Some("10.0.0.4".to_string()),
        },
        &at(5),
    );
    assert_eq!(order(&app), ["10.0.0.2", "10.0.0.4", "10.0.0.5"]);
}

#[test]
fn log_keeps_two_hundred_entries() {
    let mut app = make();
    for i in 0..250 {
        app.log(format!("entry {}", i), LogKind::Info, &at(0));
    }
    assert_eq!(app.log.len(), 200);
    assert_eq!(app.log[0].message, "entry 50");
    assert_eq!(last_log(&app).0, "entry 249");
}

fn downloading(app: &mut App) {
    app.active_downloads.push(DownloadState {
        id: "a".to_string(),
        name: "a.bin".to_string(),
        bytes_done: 0,
        total: 0,
        speed_bps: Measure { bits: 0 },
        done: false,
        cancelled: false,
        retrying: false,
        paused: false,
        done_at: None,
        eta_seconds: Measure { bits: 0 },
        last_activity: at(0).mono,
        pause_tx: Some(DownloadControl::Running),
    });
}

#[test]
fn downloads_run_their_course() {
    let mut app = make();
    downloading(&mut app);
    app.handle_event(AppEvent::DownloadRetrying { id: "a".to_string(), attempt: 2 }, &at(1));
    assert!(app.active_downloads[0].retrying);
    assert_eq!(last_log(&app).0, "Connection lost, retrying 'a.bin' (attempt 2/5)...");
    let progress = DownloadProgress {
        bytes_downloaded: 3,
        total_bytes: 9,
        speed_bps: Measure { bits: 7 },
        eta_seconds: Measure { bits: 8 },
    };
    app.handle_event(AppEvent::DownloadProgress { id: "a".to_string(), progress }, &at(2));
    let d = &app.active_downloads[0];
    assert!(!d.retrying);
    assert_eq!((d.bytes_done, d.total, d.last_activity), (3, 9, at(2).mono));
    assert_eq!((d.speed_bps.bits, d.eta_seconds.bits), (7, 8));
    let result = |ok| DownloadResult { path: PathBuf::from("/d/a.bin"), checksum_ok: ok, cancelled: false };
    let effects = app.handle_event(
        AppEvent::DownloadDone { id: "a".to_string(), result: result(Some(true)) },
        &at(3),
    );
    assert!(matches!(effects[..], [Effect::CloseControl { .. }]));
    assert_eq!(last_log(&app).0, "✓ Downloaded 'a.bin' → /d/a.bin ✓ checksum ok");
    assert!(app.active_downloads[0].done);
    assert_eq!(app.active_downloads[0].bytes_done, 9);
    app.active_downloads.clear();
    downloading(&mut app);
    app.handle_event(AppEvent::DownloadDone { id: "a".to_string(), result: result(Some(false)) }, &at(3));
    assert_eq!(
        last_log(&app),
        ("✓ Downloaded 'a.bin' → /d/a.bin ⚠ checksum MISMATCH".to_string(), LogKind::Warning)
    );
    assert_eq!(app.active_downloads[0].total, 1);
}

#[test]
fn failed_downloads_disappear() {
    let mut app = make();
    downloading(&mut app);
    let effects = app.handle_event(
        AppEvent::DownloadError { id: "a".to_string(), error: "gone".to_string() },
        &at(1),
    );
    assert!(matches!(effects[..], [Effect::CloseControl { .. }]));
    assert!(app.active_downloads.is_empty());
    assert_eq!(last_log(&app).0, "✗ Download 'a.bin' failed: gone");
    let n = app.log.len();
    app.handle_event(
        AppEvent::DownloadError { id: "b".to_string(), error: "gone".to_string() },
        &at(1),
    );
    assert_eq!(app.log.len(), n);
}

#[test]
fn pausing_and_cancelling_tell_the_download() {
    let mut app = make();
    downloading(&mut app);
    app.focus = Focus::Transfers;
    app.transfer_cursor = 9;
    match &app.handle_key(Key::Char(' '), &at(1))[..] {
        [Effect::SetControl { id, control: DownloadControl::Paused }] => assert_eq!(id, "a"),
        other => panic!("{:?}", other),
    }
    assert_eq!(app.transfer_cursor, 0);
    assert_eq!(last_log(&app).0, "⏸ Paused 'a.bin'");
    let effects = app.handle_key(Key::Char('p'), &at(7));
    assert!(matches!(effects[..], [Effect::SetControl { control: DownloadControl::Running, .. }]));
    assert_eq!(app.active_downloads[0].last_activity, at(7).mono);
    assert_eq!(last_log(&app).0, "▶ Resumed 'a.bin'");
    let effects = app.handle_key(Key::Char('c'), &at(8));
    assert!(matches!(
        effects[..],
        [Effect::SetControl { control: DownloadControl::Cancelled, .. }, Effect::CloseControl { .. }]
    ));
    assert_eq!(last_log(&app).0, "✖ Cancelled 'a.bin'");
    assert!(app.handle_key(Key::Char('c'), &at(9)).is_empty());
    assert!(app.handle_key(Key::Char('p'), &at(9)).is_empty());
}

#[test]
fn stale_downloads_are_closed() {
    let mut app = make();
    downloading(&mut app);
    assert!(app.handle_event(AppEvent::Tick, &at(9)).is_empty());
    let effects = app.handle_event(AppEvent::Tick, &at(10));
    assert!(matches!(effects[..], [Effect::CloseControl { .. }]));
    assert!(app.active_downloads[0].cancelled);
    app.handle_event(AppEvent::Tick, &at(12));
    assert_eq!(app.active_downloads.len(), 1);
    app.handle_event(AppEvent::Tick, &at(13));
    assert!(app.active_downloads.is_empty());
}

#[test]
fn files_of_a_peer_are_refreshed() {
    let mut app = make();
    app.focus = Focus::PeerFiles;
    assert!(app.handle_event(AppEvent::Tick, &at(2)).is_empty());
    let effects = app.handle_event(AppEvent::Tick, &at(3));
    assert!(matches!(effects[..], [Effect::FetchPeerFiles { .. }]));
    assert!(app.handle_event(AppEvent::Tick, &at(9)).is_empty());
    app.handle_event(AppEvent::PeerFilesLoaded(vec![]), &at(9));
    assert_eq!(app.handle_event(AppEvent::Tick, &at(9)).len(), 1);
}

#[test]
fn uploads_to_peers() {
    let mut app = make();
    let progress = |sent: u64| ServerEvent::UploadProgress {
        item_id: "new".to_string(),
        bytes_sent: sent,
        total: 100,
    };
    assert!(server(&mut app, progress(10), 0).is_empty());
    assert_eq!(app.active_uploads[0].name, "new.txt");
    match &server(&mut app, progress(40), 2)[..] {
        [Effect::Estimate { upload: UploadKind::Peer, id, sample }] => {
            assert_eq!(id, "new");
            assert_eq!((sample.bytes, sample.nanos), (30, 2 * SECOND));
            assert_eq!((sample.total, sample.done), (100, 40));
        }
        other => panic!("{:?}", other),
    }
    app.handle_event(
        AppEvent::SpeedEstimated {
            upload: UploadKind::Peer,
            id: "new".to_string(),
            smoothed: Measure { bits: 5 },
            eta: Measure { bits: 6 },
        },
        &at(2),
    );
    let u = &app.active_uploads[0];
    assert_eq!((u.smoothed_speed.bits, u.speed_bps.bits, u.eta_seconds.bits), (5, 5, 6));
    server(&mut app, progress(100), 3);
    assert!(app.active_uploads[0].done);
    assert_eq!(app.active_uploads[0].done_at, Some(at(3).mono));
    server(
        &mut app,
        ServerEvent::UploadProgress { item_id: "gone".to_string(), bytes_sent: 1, total: 9 },
        3,
    );
    assert_eq!(app.active_uploads[1].name, "gone");
    server(&mut app, ServerEvent::UploadDone { item_id: "gone".to_string() }, 3);
    assert!(app.active_uploads[1].done);
    assert_eq!(app.active_uploads[1].bytes_sent, 9);
    app.handle_event(AppEvent::Tick, &at(6));
    assert!(app.active_uploads.is_empty());
}

#[test]
fn stale_uploads_end() {
    let mut app = make();
    server(
        &mut app,
        ServerEvent::UploadProgress { item_id: "x".to_string(), bytes_sent: 1, total: 9 },
        0,
    );
    app.handle_event(AppEvent::Tick, &at(10));
    assert!(app.active_uploads[0].cancelled);
    app.handle_event(AppEvent::Tick, &at(13));
    assert!(app.active_uploads.is_empty());
}

#[test]
fn shown_speed_changes_twice_a_second() {
    let mut app = make();
    server(
        &mut app,
        ServerEvent::UploadProgress { item_id: "x".to_string(), bytes_sent: 1, total: 9 },
        0,
    );
    let mut early = at(0);
    early.mono += 499_999_999;
    app.handle_event(
        AppEvent::SpeedEstimated {
            upload: UploadKind::Peer,
            id: "x".to_string(),
            smoothed: Measure { bits: 5 },
            eta: Measure { bits: 6 },
        },
        &early,
    );
    let u = &app.active_uploads[0];
    assert_eq!((u.smoothed_speed.bits, u.speed_bps.bits), (5, 0));
}

#[test]
fn uploads_from_browsers() {
    let mut app = make();
    let id = || "t".to_string();
    server(
        &mut app,
        ServerEvent::WebUploadStarted {
            transfer_id: id(),
            filename: "f".to_string(),
            total: 0,
            by_addr: "10.0.0.9".to_string(),
        },
        0,
    );
    assert_eq!(last_log(&app).0, "⬆ 'f' upload started from 10.0.0.9");
    let effects = server(
        &mut app,
        ServerEvent::WebUploadProgress { transfer_id: id(), bytes_received: 50, total: 80 },
        1,
    );
    match &effects[..] {
        [Effect::Estimate { upload: UploadKind::Web, sample, .. }] => {
            assert_eq!((sample.bytes, sample.nanos, sample.total), (50, SECOND, 80));
        }
        other => panic!("{:?}", other),
    }
    app.handle_event(
        AppEvent::SpeedEstimated {
            upload: UploadKind::Web,
            id: id(),
            smoothed: Measure { bits: 5 },
            eta: Measure { bits: 6 },
        },
        &at(1),
    );
    assert_eq!(app.web_uploads[0].speed_bps.bits, 5);
    server(&mut app, ServerEvent::WebUploadFinished { transfer_id: id() }, 2);
    assert!(app.web_uploads[0].done);
    assert_eq!(app.web_uploads[0].bytes_received, 80);
    assert_eq!(last_log(&app).0, "✔ 'f' received from 10.0.0.9 via web UI");
    server(&mut app, ServerEvent::WebUploadFailed { transfer_id: id() }, 2);
    assert!(app.web_uploads[0].failed);
    assert_eq!(last_log(&app).0, "✗ 'f' upload from 10.0.0.9 failed");
    app.handle_event(AppEvent::Tick, &at(5));
    assert!(app.web_uploads.is_empty());
    server(
        &mut app,
        ServerEvent::WebUploadStarted {
            transfer_id: id(),
            filename: "g".to_string(),
            total: 9,
            by_addr: String::new(),
        },
        5,
    );
    app.handle_event(AppEvent::Tick, &at(15));
    assert!(app.web_uploads[0].failed);
}

#[test]
fn downloads_by_others_are_noted() {
    let mut app = make();
    server(
        &mut app,
        ServerEvent::Downloaded { item_name: "a".to_string(), by_addr: "10.0.0.9".to_string() },
        0,
    );
    assert_eq!(last_log(&app), ("⬇ 'a' downloaded by 10.0.0.9".to_string(), LogKind::Download));
    server(&mut app, ServerEvent::Deleted { item_name: "a".to_string() }, 0);
    assert_eq!(last_log(&app), ("🗑 'a' deleted via web UI".to_string(), LogKind::Warning));
    server(
        &mut app,
        ServerEvent::UploadProgress { item_id: "new".to_string(), bytes_sent: 1, total: 9 },
        0,
    );
    server(
        &mut app,
        ServerEvent::Uploaded { item_name: "new.txt".to_string(), by_addr: "10.0.0.9".to_string() },
        1,
    );
    assert_eq!(last_log(&app).0, "⬆ 'new.txt' uploaded by 10.0.0.9");
    assert!(app.active_uploads[0].done);
}
