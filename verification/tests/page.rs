//! The page for browsers.

use fileshare::page::{html_escape, render_row, serve_browser_ui};
use fileshare::shares::{ShareKind, SharedItem};
use fileshare::time::Timestamp;
use std::path::PathBuf;

fn item(kind: ShareKind) -> SharedItem {
    SharedItem {
        id: "id1".to_string(),
        name: "<b>&\"x\"".to_string(),
        kind,
        size: 1536,
        path: PathBuf::from("/f"),
        checksum: String::new(),
        added_at: Timestamp { secs: 0, nanos: 0 },
        download_count: 3,
        download_limit: None,
        expires_at: None,
    }
}

#[test]
fn escaping_follows_replacing_in_turn() {
    for s in ["", "plain", "<a href=\"x\">&amp;</a>", "&&<<", "&lt;", "é<"] {
        let replaced = s
            .replace('&', "&amp;")
            .replace('<', "&lt;")
            .replace('>', "&gt;")
            .replace('"', "&quot;");
        assert_eq!(html_escape(s), replaced);
        assert!(!html_escape(s).contains(|c| c == '<' || c == '>' || c == '"'));
    }
    assert_ne!(html_escape("&lt;"), html_escape("<"));
}

#[test]
fn rows_of_files() {
    let row = render_row(&item(ShareKind::File));
    assert!(row.starts_with("<tr>\n                <td>📄 &lt;b&gt;&amp;&quot;x&quot;</td>"));
    assert!(row.contains("<td>1.5 KB</td>"));
    assert!(row.contains("<td>3</td>"));
    assert!(row.contains("<a href=\"/download/id1\" download>Download</a>"));
    assert!(row.contains("deleteShare('id1', this)"));
    assert!(row.ends_with("</tr>"));
    assert!(!row.contains("browse-row"));
}

#[test]
fn rows_of_folders() {
    let row = render_row(&item(ShareKind::Folder));
    assert!(row.contains("toggleBrowse('id1', this)"));
    assert!(row.contains("downloadFolder('id1', '&lt;b&gt;&amp;&quot;x&quot;', this)"));
    assert!(row.contains("<tr id=\"browse-row-id1\""));
    assert!(row.contains("<div id=\"browse-body-id1\""));
}

#[test]
fn page_of_a_host() {
    let page = serve_browser_ui("<alice>", &vec![item(ShareKind::ZippedFolder), item(ShareKind::File)]);
    assert!(page.starts_with("<!DOCTYPE html>\n<html>\n<head>\n  <title>&lt;alice&gt; — fileshare</title>"));
    assert!(page.contains("<h1>📡 &lt;alice&gt;'s files"));
    assert!(page.contains("<tbody id=\"shares-body\"><tr>"));
    assert!(page.contains("🗜️"));
    assert!(page.contains("const POLL_MS = 4000;"));
    assert!(page.contains("`⬇ ${i + 1}/${files.length}…`"));
    assert!(page.ends_with("</html>"));
    assert!(!page.contains("{{"));
    assert_eq!(page.matches("deleteShare('id1', this)").count(), 2);
}
