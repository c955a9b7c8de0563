//! The user interface: stale and finished transfers, pausing and cancelling.

use fileshare::client::{DownloadControl, DownloadResult, Measure};
use fileshare::config::Config;
use fileshare::discovery::PeerRegistry;
use fileshare::shares::ShareRegistry;
use fileshare::time::{Clock, Timestamp};
use fileshare::tui::app::App;
use fileshare::tui::input::Key;
use fileshare::tui::state::{AppEvent, DownloadState, Focus};
use std::path::PathBuf;

const SECOND: u64 = 1_000_000_000;

/// A clock that has been running for a while.
fn clock() -> Clock {
    Clock { mono: 1_000 * SECOND, wall: Timestamp { secs: 1_700_000_000, nanos: 0 } }
}

fn make_app() -> App {
    let config = Config::initial(PathBuf::from("/downloads"));
    let peers = PeerRegistry::new();
    let tmp = PathBuf::from("/tmp/fileshare_test_shares");
    let shares = ShareRegistry::new(tmp.clone(), tmp.join("index.json"));
    App::new(config, peers, shares, &clock())
}

fn fake_download(name: &str, paused: bool) -> DownloadState {
    DownloadState {
        id: name.to_string(),
        name: name.to_string(),
        bytes_done: 1024,
        total: 10_000,
        speed_bps: Measure { bits: 1_000_000.0f64.to_bits() },
        done: false,
        cancelled: false,
        retrying: false,
        paused,
        done_at: None,
        eta_seconds: Measure { bits: 5.0f64.to_bits() },
        last_activity: clock().mono,
        pause_tx: Some(DownloadControl::Running),
    }
}

#[test]
fn test_stale_active_download_gets_cancelled() {
    let mut app = make_app();
    let mut dl = fake_download("stale.bin", false);
    dl.last_activity = clock().mono - 15 * SECOND;
    app.active_downloads.push(dl);

    app.handle_event(AppEvent::Tick, &clock());

    let dl = &app.active_downloads[0];
    assert!(dl.cancelled, "stale download should be cancelled");
    assert!(dl.done_at.is_some());
}

#[test]
fn test_paused_download_not_stale() {
    let mut app = make_app();
    let mut dl = fake_download("paused.bin", true);
    dl.last_activity = clock().mono - 30 * SECOND;
    app.active_downloads.push(dl);

    app.handle_event(AppEvent::Tick, &clock());

    let dl = &app.active_downloads[0];
    assert!(!dl.cancelled, "paused download must never be stale-cancelled");
}

#[test]
fn test_done_download_pruned_after_3s() {
    let mut app = make_app();
    let mut dl = fake_download("done.bin", false);
    dl.done = true;
    dl.done_at = Some(clock().mono - 4 * SECOND);
    app.active_downloads.push(dl);

    app.handle_event(AppEvent::Tick, &clock());

    assert!(app.active_downloads.is_empty(), "finished download should be pruned after 3s");
}

#[test]
fn test_recent_done_download_not_yet_pruned() {
    let mut app = make_app();
    let mut dl = fake_download("recent.bin", false);
    dl.done = true;
    dl.done_at = Some(clock().mono);
    app.active_downloads.push(dl);

    app.handle_event(AppEvent::Tick, &clock());

    assert!(
        !app.active_downloads.is_empty(),
        "recently finished download should still be visible"
    );
}

#[test]
fn test_pause_toggles_state() {
    let mut app = make_app();
    app.active_downloads.push(fake_download("file.bin", false));
    app.focus = Focus::Transfers;
    app.transfer_cursor = 0;

    app.handle_key(Key::Char('p'), &clock());
    assert!(app.active_downloads[0].paused, "download should be paused after p");

    app.handle_key(Key::Char('p'), &clock());
    assert!(!app.active_downloads[0].paused, "download should resume after second p");
}

#[test]
fn test_cancel_sets_cancelled_and_drops_sender() {
    let mut app = make_app();
    app.active_downloads.push(fake_download("file.bin", false));
    app.focus = Focus::Transfers;
    app.transfer_cursor = 0;

    app.handle_key(Key::Char('c'), &clock());

    let dl = &app.active_downloads[0];
    assert!(dl.cancelled, "download should be cancelled");
    assert!(dl.done_at.is_some(), "done_at should be set on cancel");
    assert!(dl.pause_tx.is_none(), "pause_tx should be dropped on cancel");
}

#[test]
fn test_cancel_paused_download() {
    let mut app = make_app();
    app.active_downloads.push(fake_download("file.bin", true));
    app.focus = Focus::Transfers;
    app.transfer_cursor = 0;

    app.handle_key(Key::Char('c'), &clock());

    assert!(app.active_downloads[0].cancelled);
    assert!(app.active_downloads[0].pause_tx.is_none());
}

#[test]
fn test_cannot_cancel_already_done() {
    let mut app = make_app();
    let mut dl = fake_download("done.bin", false);
    dl.done = true;
    dl.done_at = Some(clock().mono);
    app.active_downloads.push(dl);
    app.focus = Focus::Transfers;
    app.transfer_cursor = 0;

    app.handle_key(Key::Char('c'), &clock());

    assert!(!app.active_downloads[0].cancelled);
    assert!(app.active_downloads[0].done);
}

#[test]
fn test_cursor_navigation() {
    let mut app = make_app();
    app.active_downloads.push(fake_download("a.bin", false));
    app.active_downloads.push(fake_download("b.bin", false));
    app.active_downloads.push(fake_download("c.bin", false));
    app.focus = Focus::Transfers;
    app.transfer_cursor = 0;

    app.handle_key(Key::Down, &clock());
    assert_eq!(app.transfer_cursor, 1);
    app.handle_key(Key::Down, &clock());
    assert_eq!(app.transfer_cursor, 2);
    // At bottom: should not go past end
    app.handle_key(Key::Down, &clock());
    assert_eq!(app.transfer_cursor, 2);
    app.handle_key(Key::Up, &clock());
    assert_eq!(app.transfer_cursor, 1);
    // At top: should not go negative
    app.handle_key(Key::Up, &clock());
    app.handle_key(Key::Up, &clock());
    assert_eq!(app.transfer_cursor, 0);
}

#[test]
fn test_download_done_ignored_if_cancelled() {
    let mut app = make_app();
    let mut dl = fake_download("file.bin", false);
    dl.cancelled = true;
    dl.done_at = Some(clock().mono);
    app.active_downloads.push(dl);

    app.handle_event(
        AppEvent::DownloadDone {
            id: "file.bin".to_string(),
            result: DownloadResult {
                path: PathBuf::from("/fake"),
                checksum_ok: None,
                cancelled: false,
            },
        },
        &clock(),
    );

    assert!(app.active_downloads[0].cancelled);
    assert!(!app.active_downloads[0].done);
}
