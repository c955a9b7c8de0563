//! What the user interface shows.

use fileshare::client::{DownloadControl, Measure, RemoteShareInfo};
use fileshare::config::Config;
use fileshare::discovery::PeerRegistry;
use fileshare::folder::{EntryKind, WalkEntry};
use fileshare::shares::{ShareKind, ShareRegistry, SharedItem};
use fileshare::time::{Clock, Timestamp};
use fileshare::tui::app::App;
use fileshare::tui::overlay::{
    draw_help_overlay, draw_manual_ip_overlay, draw_manual_path_overlay, draw_qr_overlay,
    draw_zip_confirm_overlay, input_line, path_dialog_width, visible_path, zip_request,
};
use fileshare::tui::qr::{browser_url, draw_qr, QrCell};
use fileshare::tui::state::{
    DownloadState, Focus, LogEntry, LogKind, UploadState, WebUploadState,
};
use fileshare::tui::theme::{theme, Color};
use fileshare::tui::ui::{
    centred_popup, draw_my_shares, draw_peer_files, draw_peer_list, draw_status_bar,
    draw_transfer_row_download, draw_transfer_row_upload, draw_transfer_row_web_upload,
    draw_transfers_panel, first_visible, log_line, no_transfers_hint, shares_header, title_bar,
    transfer_bar_width, transfers_panel_height, transfers_title, truncate, Area, Figures, Line,
    TransferRow,
};
use std::path::PathBuf;

fn clock() -> Clock {
    Clock { mono: 1_000_000_000_000, wall: Timestamp { secs: 1_700_000_000, nanos: 0 } }
}

fn text(line: &Line) -> String {
    line.spans.iter().map(|s| s.text.as_str()).collect()
}

fn make() -> App {
    let mut config = Config::initial(PathBuf::from("/downloads"));
    config.username = "alice".to_string();
    let shares = ShareRegistry::new(PathBuf::from("/cache"), PathBuf::from("/index.json"));
    App::new(config, PeerRegistry::new(), shares, &clock())
}

fn share(id: &str, kind: ShareKind) -> SharedItem {
    SharedItem {
        id: id.to_string(),
        name: "a very long name of a file that does not fit.txt".to_string(),
        kind,
        size: 1536,
        path: PathBuf::from("/f"),
        checksum: String::new(),
        added_at: Timestamp { secs: 5, nanos: 0 },
        download_count: 7,
        download_limit: None,
        expires_at: None,
    }
}

fn figures(filled: usize) -> Figures {
    Figures {
        filled,
        percent: "40".to_string(),
        speed: "1.0 MB/s".to_string(),
        eta: "5 s".to_string(),
    }
}

fn download() -> DownloadState {
    DownloadState {
        id: "a".to_string(),
        name: "a.bin".to_string(),
        bytes_done: 4,
        total: 10,
        speed_bps: Measure { bits: 0 },
        done: false,
        cancelled: false,
        retrying: false,
        paused: false,
        done_at: None,
        eta_seconds: Measure { bits: 0 },
        last_activity: 0,
        pause_tx: Some(DownloadControl::Running),
    }
}

#[test]
fn bars_at_top_and_bottom() {
    let mut app = make();
    let t = theme(0);
    assert_eq!(text(&title_bar("alice", 7777, &t)), " 📡 fileshare │ alice @ port 7777  │  ? help  r qr");
    let bar = draw_status_bar(&app, &t);
    assert_eq!(
        text(&bar),
        " [Tab] switch panel  [↑↓/jk] navigate  [Enter] browse files  [m] add peer manually  [?] help  [r] qr code  [q] quit    DL→ /downloads"
    );
    app.peers.add_manual_at("10.0.0.1".to_string(), 1, &clock().wall);
    assert!(text(&draw_status_bar(&app, &t)).contains("[x] remove manual peer"));
    app.focus = Focus::MyShares;
    assert!(text(&draw_status_bar(&app, &t)).contains("drag & drop to add"));
    app.focus = Focus::PeerFiles;
    assert!(text(&draw_status_bar(&app, &t)).contains("[←] back to peers"));
    app.focus = Focus::Transfers;
    assert!(text(&draw_status_bar(&app, &t)).contains("[c/Del] cancel"));
}

#[test]
fn panel_of_peers() {
    let mut app = make();
    let t = theme(0);
    let panel = draw_peer_list(&app, &t);
    assert_eq!(panel.title.text, " Peers (0) ");
    assert_eq!(panel.border, Color::Cyan);
    assert_eq!(text(&panel.lines[0]), "  No peers found");
    app.peers.add_manual_at("10.0.0.1".to_string(), 1, &clock().wall);
    app.peers.upsert_at("10.0.0.2".to_string(), 7777, "bob".to_string(), 3, &clock().wall);
    let panel = draw_peer_list(&app, &t);
    assert_eq!(panel.title.text, " Peers (2) — [x] remove ");
    assert_eq!(text(&panel.lines[0]), "▶ 10.0.0.1:1 10.0.0.1 [0] [m]");
    assert_eq!(text(&panel.lines[1]), "  bob 10.0.0.2 [3]");
    assert!(panel.lines[0].spans[1].bold);
    assert_eq!(panel.lines[0].spans[1].bg, Some(Color::Rgb(30, 50, 60)));
    app.focus = Focus::MyShares;
    let panel = draw_peer_list(&app, &t);
    assert_eq!(panel.border, Color::DarkGray);
    assert_eq!(panel.title.text, " Peers (2) ");
}

#[test]
fn panel_of_files() {
    let mut app = make();
    let t = theme(0);
    let panel = draw_peer_files(&app, &t);
    assert_eq!(panel.title.text, " Files ");
    assert_eq!(text(&panel.lines[0]), "  Select a peer →");
    app.peers.upsert_at("10.0.0.2".to_string(), 7777, "bob".to_string(), 3, &clock().wall);
    assert_eq!(text(&draw_peer_files(&app, &t).lines[0]), "  No files shared");
    app.peer_files_loading = true;
    let panel = draw_peer_files(&app, &t);
    assert_eq!(panel.title.text, " Loading… ");
    assert!(panel.lines.is_empty());
    app.peer_files_loading = false;
    let file = |id: &str, kind: &str, available| RemoteShareInfo {
        id: id.to_string(),
        name: format!("{}.bin", id),
        kind: kind.to_string(),
        size: 5,
        size_human: "5 B".to_string(),
        available,
    };
    app.peer_files =
        vec![file("a", "file", true), file("b", "folder", false), file("c", "zipped_folder", true)];
    app.active_downloads.push(download());
    let panel = draw_peer_files(&app, &t);
    assert_eq!(panel.title.text, " bob's files (3) ");
    assert_eq!(text(&panel.lines[0]), "▶ 📄 a.bin ⬇  5 B");
    assert_eq!(panel.lines[0].spans[3].fg, Some(Color::Magenta));
    assert_eq!(text(&panel.lines[1]), "  📁 b.bin ✗  5 B");
    assert_eq!(panel.lines[1].spans[3].fg, Some(Color::DarkGray));
    assert_eq!(text(&panel.lines[2]), "  🗜  c.bin  5 B");
}

#[test]
fn panel_of_shares() {
    let mut app = make();
    let t = theme(0);
    let now = clock().wall;
    let panel = draw_my_shares(&app, &now, &t);
    assert_eq!(panel.lines.len(), 4);
    assert_eq!(text(&panel.lines[1]), "  No files shared yet.");
    let mut item = share("id1", ShareKind::ZippedFolder);
    app.shares.insert(share("id1", ShareKind::ZippedFolder));
    let panel = draw_my_shares(&app, &now, &t);
    assert_eq!(panel.title.text, " My Shares (1) — drag & drop, [m] add path, [x] remove ");
    assert_eq!(
        text(&panel.lines[0]),
        format!("▶ [id1] 📦 {:<30}    1.5 KB    7x  live", "a very long name of a file th…")
    );
    item.expires_at = Some(Timestamp { secs: now.secs + 90, nanos: 0 });
    app.shares.insert(item);
    let row = |app: &App| text(&draw_my_shares(app, &now, &t).lines[0]);
    assert!(row(&app).ends_with("7x  expires in 1m 30s"));
    let mut item = share("id1", ShareKind::File);
    item.download_limit = Some(7);
    app.shares.insert(item);
    assert!(row(&app).ends_with("7x  limit"));
    let mut item = share("id1", ShareKind::Folder);
    item.expires_at = Some(Timestamp { secs: 9, nanos: 0 });
    app.shares.insert(item);
    assert!(row(&app).ends_with("7x  expired"));
    assert!(text(&shares_header(&t)).starts_with("  ID       Name"));
}

#[test]
fn rows_of_downloads() {
    let t = theme(0);
    let lines = draw_transfer_row_download(&download(), &figures(4), 12, &t);
    assert_eq!(text(&lines[0]), " ⬇ a.bin");
    assert_eq!(text(&lines[1]), "████░░░░░░");
    assert_eq!(text(&lines[2]), " 40 % 1.0 MB/s 5 s ");
    let mut d = download();
    d.done = true;
    let lines = draw_transfer_row_download(&d, &figures(10), 12, &t);
    assert_eq!(text(&lines[2]), " 40 % done ");
    assert_eq!(lines[1].spans[0].fg, Some(Color::Green));
    d.retrying = true;
    assert_eq!(text(&draw_transfer_row_download(&d, &figures(0), 2, &t)[2]), " 40 % retrying... ");
    d.cancelled = true;
    let lines = draw_transfer_row_download(&d, &figures(0), 2, &t);
    assert_eq!(text(&lines[2]), " 40 % cancelled ");
    assert_eq!(lines[0].spans[0].fg, Some(Color::Red));
}

#[test]
fn rows_of_uploads() {
    let t = theme(0);
    let mut u = UploadState {
        id: "a".to_string(),
        name: "a.bin".to_string(),
        bytes_sent: 4,
        total: 10,
        speed_bps: Measure { bits: 0 },
        done: false,
        cancelled: false,
        done_at: None,
        last_bytes: 0,
        last_tick: 0,
        eta_seconds: Measure { bits: 0 },
        smoothed_speed: Measure { bits: 0 },
        last_display_update: 0,
    };
    let lines = draw_transfer_row_upload(&u, &figures(1), 4, &t);
    assert_eq!(text(&lines[0]), " ⬆ a.bin");
    assert_eq!(lines[0].spans[0].fg, Some(Color::Rgb(255, 165, 0)));
    assert_eq!(text(&lines[2]), " 40 % 1.0 MB/s 5 s ");
    u.done = true;
    assert_eq!(text(&draw_transfer_row_upload(&u, &figures(1), 4, &t)[2]), " 40 % done ");
    let mut w = WebUploadState {
        transfer_id: "t".to_string(),
        name: "f".to_string(),
        bytes_received: 1024,
        total: 0,
        speed_bps: Measure { bits: 0 },
        smoothed_speed: Measure { bits: 0 },
        eta_seconds: Measure { bits: 0 },
        done: false,
        failed: false,
        done_at: None,
        last_bytes: 0,
        last_tick: 0,
        last_display_update: 0,
        by_addr: "10.0.0.9".to_string(),
    };
    let lines = draw_transfer_row_web_upload(&w, &figures(0), 4, &t);
    assert_eq!(text(&lines[0]), " ↓ f ← 10.0.0.9");
    assert_eq!(text(&lines[2]), " 1.0 KB received 1.0 MB/s ");
    w.total = 2048;
    w.failed = true;
    let lines = draw_transfer_row_web_upload(&w, &figures(0), 4, &t);
    assert_eq!(text(&lines[2]), " 40 % failed 5 s ");
}

#[test]
fn layout_of_the_terminal() {
    assert_eq!(transfers_panel_height(0, 0), 5);
    assert_eq!(transfers_panel_height(1, 0), 5);
    assert_eq!(transfers_panel_height(1, 1), 8);
    assert_eq!(transfers_panel_height(2, 1), 11);
    assert_eq!(transfers_panel_height(50, 50), 11);
    assert_eq!(
        draw_transfers_panel(1, 1, 3, 9),
        vec![TransferRow::Upload(0), TransferRow::WebUpload(0), TransferRow::Download(0)]
    );
    assert_eq!(
        draw_transfers_panel(0, 0, 2, 9),
        vec![TransferRow::Download(0), TransferRow::Download(1)]
    );
    assert!(draw_transfers_panel(2, 2, 2, 2).is_empty());
    assert_eq!(text(&no_transfers_hint(&theme(0))), "  No active transfers");
    assert_eq!(transfer_bar_width(1), 0);
    assert_eq!(transfer_bar_width(80), 78);
    assert_eq!(
        centred_popup(54, 24, 100, 20),
        Area { x: 23, y: 0, width: 54, height: 20 }
    );
    assert_eq!(path_dialog_width(40), 52);
    assert_eq!(path_dialog_width(60), 60);
    assert_eq!(path_dialog_width(200), 70);
    assert_eq!(transfers_title(0, &theme(0)).text, " Transfers ");
    assert_eq!(transfers_title(2, &theme(0)).text, " Transfers (2) ");
}

#[test]
fn texts_are_shortened() {
    assert_eq!(truncate("short", 30), "short");
    assert_eq!(truncate("abcdef", 4), "abc…");
    assert_eq!(truncate("abcé", 4), "abc…");
    assert_eq!(truncate("hello", 5), "hello");
    assert_eq!(truncate("hello world", 5), "hell…");
    assert_eq!(truncate("hello", 0), "…");
    assert_eq!(truncate("", 0), "");
    assert_eq!(truncate(&"x".repeat(100_000), 70_000).chars().count(), 70_000);
    assert_eq!(truncate("hello", usize::MAX), "hello");
    assert_eq!(visible_path("/home/tim", 9), "/tim");
    assert_eq!(visible_path("/home/tim", 3), "");
    assert_eq!(text(&input_line("x", &theme(0))), " > x█");
}

#[test]
fn lines_of_the_log() {
    let t = theme(0);
    let entry = |kind| LogEntry { timestamp: clock().wall, message: "m".to_string(), kind };
    assert_eq!(text(&log_line(&entry(LogKind::Info), "12:00:00", &t)), " 12:00:00 · m");
    assert_eq!(text(&log_line(&entry(LogKind::Success), "12:00:00", &t)), " 12:00:00 ✓ m");
    assert_eq!(text(&log_line(&entry(LogKind::Warning), "12:00:00", &t)), " 12:00:00 ! m");
    assert_eq!(text(&log_line(&entry(LogKind::Download), "12:00:00", &t)), " 12:00:00 ⬇ m");
    assert_eq!(first_visible(10, 4), 6);
    assert_eq!(first_visible(3, 4), 0);
}

#[test]
fn question_whether_to_zip() {
    let entries: Vec<WalkEntry> = (0..847)
        .map(|i| WalkEntry {
            kind: EntryKind::File,
            depth: 1,
            size: Some(176_166),
            rel_path: Some(format!("{}", i)),
            parent_rel_path: None,
            full_path: String::new(),
        })
        .collect();
    let req = zip_request(PathBuf::from("/p"), "my_project".to_string(), &entries);
    assert!(req.would_zip);
    let lines: Vec<String> = draw_zip_confirm_overlay(&req, &theme(0)).lines.iter().map(text).collect();
    assert_eq!(lines[0], " Folder: my_project");
    assert_eq!(lines[1], " Size:   142.3 MB  (847 files)");
    assert_eq!(lines[3], " Zip before sharing?  Recommended: Yes (large folder)");
    assert_eq!(lines[6], "  [y] Zip & share    [n] Share as-is    [Esc] Cancel");
    let small = zip_request(PathBuf::from("/p"), "p".to_string(), &vec![]);
    let lines: Vec<String> = draw_zip_confirm_overlay(&small, &theme(0)).lines.iter().map(text).collect();
    assert_eq!(lines[3], " Zip before sharing?  Optional (small folder)");
}

#[test]
fn qr_code_of_a_url() {
    let url = browser_url(Some("192.168.1.5".to_string()), 7777);
    assert_eq!(url, "https://192.168.1.5:7777/");
    assert_eq!(browser_url(Some("0.0.0.0".to_string()), 1), "https://127.0.0.1:1/");
    assert_eq!(browser_url(None, 1), "https://127.0.0.1:1/");
    let m = draw_qr(&url).unwrap();
    assert_eq!(m.width, 25);
    assert_eq!(m.dark.len(), 625);
    // The pattern in the corner: a dark frame around a light one
    assert!(m.dark[0] && m.dark[6] && m.dark[25] && !m.dark[26]);
    let cells = m.cells();
    assert_eq!(cells.len(), 14);
    assert!(cells.iter().all(|row| row.len() == 27));
    assert_eq!(cells[0][0], QrCell::BothLight);
    assert_eq!(cells[0][1], QrCell::BottomDark);
    assert_eq!(cells[1][1], QrCell::BothDark);
    assert_eq!(cells[1][2], QrCell::BothLight);
    let overlay = draw_qr_overlay(&m, &url, &theme(0));
    assert_eq!((overlay.width, overlay.height), (30, 21));
    assert_eq!(text(&overlay.lines[1]), " https://192.168.1.5:7777/");
    assert_eq!(overlay.lines[3].spans.len(), 28);
    assert_eq!(overlay.lines[3].spans[2].text, "▀");
    assert_eq!(overlay.lines[3].spans[2].bg, Some(Color::White));
    assert_eq!(text(&overlay.lines[18]), " [r / Esc] close ");
    assert!(draw_qr(&"x".repeat(3_000)).is_none());
}

#[test]
fn help_and_dialogs() {
    let t = theme(0);
    let help = draw_help_overlay(&t);
    assert!(help.title.is_none());
    assert_eq!((help.width, help.height, help.lines.len()), (54, 24, 26));
    assert_eq!(text(&help.lines[0]), " Keyboard Shortcuts");
    assert_eq!(text(&help.lines[25]), "  q / Ctrl+C        Quit");
    let dialog = draw_manual_ip_overlay("10.0", &t);
    assert_eq!(dialog.title.unwrap().text, " Add Peer Manually ");
    assert_eq!(text(&dialog.lines[2]), " > 10.0█");
    let dialog = draw_manual_path_overlay("/home", 200, &t);
    assert_eq!((dialog.width, dialog.height), (70, 7));
    assert_eq!(text(&dialog.lines[1]), " Windows: C:\\Users\\Tim\\Downloads\\file.txt");
    assert_eq!(text(&dialog.lines[4]), " > /home█");
    let dialog = draw_manual_path_overlay(&"x".repeat(60), 10, &t);
    assert_eq!(text(&dialog.lines[4]), format!(" > {}█", "x".repeat(47)));
}
