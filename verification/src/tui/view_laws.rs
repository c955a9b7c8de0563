//! What the terminal shows: every peer, file, share, transfer and note, as it
//! is.

use crate::discovery::PeerView;
use crate::shares::{size_text, ShareKind, SharedItemView};
use crate::text::{decimal_text, text_bytes};
use crate::time::Timestamp;
use crate::tui::app::{is_downloading, AppView};
use crate::tui::overlay::{
    address_dialog, cell_span, dialog_width, path_dialog, path_room, qr_lines, zip_question,
};
use crate::tui::qr::{shown_address, QrCell, QrMatrix};
use crate::tui::state::{
    DownloadStateView, Focus, LogEntryView, UploadStateView, WebUploadStateView,
    ZipConfirmRequestView,
};
use crate::tui::theme::{Color, ThemeView};
use crate::tui::ui::{
    bar_text, bar_width, download_rows, file_row, files_panel_of, hints_of, log_line_of, peers_panel_of,
    remote_icon, shares_panel_of, shown_transfers, status_bar_of, status_span, title_bar_of, transfers_height,
    transfers_title_of, truncated, upload_rows, web_upload_rows, Figures, SpanView, TransferRow,
};
use vstd::prelude::*;

verus! {

/// Whether a span of a line shows this text.
pub open spec fn shows(line: Seq<SpanView>, text: Seq<char>) -> bool {
    exists|i: int| 0 <= i < line.len() && (#[trigger] line[i]).text == text
}

/// The panel of the peers has a row for each, in order, with the name, the address
/// and the number of shares; the selected one is marked and bold, and those
/// entered by hand are told. The title counts them.
pub proof fn law_every_peer_is_shown(
    peers: Seq<PeerView>,
    selected: usize,
    focused: bool,
    t: ThemeView,
    i: int,
)
    requires
        0 <= i < peers.len(),
    ensures
        ({
            let panel = peers_panel_of(peers, selected, focused, t);
            let line = panel.lines[i];
            &&& panel.lines.len() == peers.len()
            &&& line[0].text == (if i == selected {
                "▶ "@
            } else {
                "  "@
            })
            &&& line[1].text == peers[i].username
            &&& line[1].bold == (i == selected)
            &&& line[2].text == " "@ + peers[i].addr
            &&& line[3].text == " ["@ + decimal_text(peers[i].share_count as nat) + "]"@
            &&& peers[i].manual ==> shows(line, " [m]"@)
            &&& !peers[i].manual ==> line[4].text.len() == 0
            &&& panel.title.text == " Peers ("@ + decimal_text(peers.len()) + (if focused
                && selected < peers.len() && peers[selected as int].manual {
                ") — [x] remove "@
            } else {
                ") "@
            })
            &&& panel.border == (if focused {
                t.accent
            } else {
                t.dim
            })
        }),
        peers_panel_of(Seq::empty(), selected, focused, t).lines[0][0].text
            == "  No peers found"@,
{
    reveal_strlit("");
    let line = peers_panel_of(peers, selected, focused, t).lines[i];
    if peers[i].manual {
        assert(line[4].text == " [m]"@);
    }
}

/// The panel of a peer's files has a row for each, in order, with its icon, its
/// name and its size; a file that cannot be had is marked, and so is one that is
/// being downloaded. The title names the peer and counts the files, or says that
/// they are waited for.
pub proof fn law_every_file_is_shown(a: AppView, peer: Option<PeerView>, t: ThemeView, i: int)
    requires
        0 <= i < a.peer_files.len(),
    ensures
        ({
            let panel = files_panel_of(a, peer, t);
            let line = panel.lines[i];
            let f = a.peer_files[i];
            let running = exists|j: int|
                0 <= j < a.active_downloads.len() && (#[trigger] a.active_downloads[j]).id == f.id
                    && !a.active_downloads[j].done;
            &&& panel.lines.len() == a.peer_files.len()
            &&& line[0].text == (if i == a.peer_files_state {
                "▶ "@
            } else {
                "  "@
            })
            &&& f.kind == "folder"@ ==> line[1].text == "📁"@
            &&& f.kind == "zipped_folder"@ ==> line[1].text == "🗜 "@
            &&& f.kind == "file"@ ==> line[1].text == "📄"@
            &&& f.available && !running ==> line[3].text == f.name
            &&& f.available && running ==> line[3].text == f.name + " ⬇"@
            &&& !f.available && !running ==> line[3].text == f.name + " ✗"@
            &&& line[4].text == "  "@ + f.size_human
            &&& a.peer_files_loading ==> panel.title.text == " Loading… "@
            &&& !a.peer_files_loading && peer is Some ==> panel.title.text == " "@
                + peer->0.username + "'s files ("@ + decimal_text(a.peer_files.len()) + ") "@
        }),
{
    reveal_strlit("");
    reveal_strlit("folder");
    reveal_strlit("zipped_folder");
    reveal_strlit("file");
    let f = a.peer_files[i];
    assert("file"@.len() == 4 && "folder"@.len() == 6 && "zipped_folder"@.len() == 13);
    let line = files_panel_of(a, peer, t).lines[i];
    assert(line == file_row(
        f,
        is_downloading(a.active_downloads, f.id),
        i == a.peer_files_state,
        a.focus == Focus::PeerFiles,
        t,
    ));
    assert(line[1].text == remote_icon(f.kind));
    assert(f.name + ""@ =~= f.name);
    assert(f.name + ""@ + ""@ =~= f.name);
    assert(f.name + ""@ + " ⬇"@ =~= f.name + " ⬇"@);
    assert(f.name + " ✗"@ + ""@ =~= f.name + " ✗"@);
}

/// The panel of the shares has a row for each, in order, with its id, its icon,
/// its name in a column of thirty, its size, the number of downloads, and whether
/// it can be had. The title counts them.
pub proof fn law_every_share_is_shown(
    items: Seq<SharedItemView>,
    now: Timestamp,
    selected: usize,
    focused: bool,
    t: ThemeView,
    i: int,
)
    requires
        0 <= i < items.len(),
    ensures
        ({
            let panel = shares_panel_of(items, now, selected, focused, t);
            let line = panel.lines[i];
            let item = items[i];
            &&& panel.lines.len() == items.len()
            &&& line[0].text == (if i == selected {
                "▶ "@
            } else {
                "  "@
            })
            &&& line[1].text == "["@ + item.id + "] "@
            &&& item.kind == ShareKind::File ==> line[2].text == "📄"@
            &&& item.kind == ShareKind::Folder ==> line[2].text == "📁"@
            &&& item.kind == ShareKind::ZippedFolder ==> line[2].text == "📦"@
            &&& text_bytes(item.name) <= 30 ==> line[4].text.take(item.name.len() as int)
                == item.name
            &&& line[4].text.len() >= 30
            &&& line[5].text == "  "@ + crate::text::padded_left(size_text(item.size as nat), 8)
            &&& line[6].text == "  "@ + crate::text::padded_left(
                decimal_text(item.download_count as nat),
                3,
            ) + "x  "@
            &&& line[7] == status_span(item, now, t)
            &&& panel.title.text == " My Shares ("@ + decimal_text(items.len())
                + ") — drag & drop, [m] add path, [x] remove "@
        }),
        shares_panel_of(Seq::empty(), now, selected, focused, t).lines[1][0].text
            == "  No files shared yet."@,
{
    let item = items[i];
    let name = truncated(item.name, 30);
    crate::text::law_padding_fills_up(name, 30);
}

/// A share is called expired once its end has passed, limited once it was
/// downloaded as often as it may be, and else live, or told with the time that is
/// left. What can no longer be had is set in the colour of warnings.
pub proof fn law_status_of_a_share(item: SharedItemView, now: Timestamp, t: ThemeView)
    ensures
        ({
            let s = status_span(item, now, t);
            let passed = item.expires_at is Some && (now.secs > item.expires_at->0.secs || (now.secs
                == item.expires_at->0.secs && now.nanos > item.expires_at->0.nanos));
            let used_up = item.download_limit is Some && item.download_count
                >= item.download_limit->0;
            &&& passed ==> s.text == "expired"@ && s.fg == Some(t.warn)
            &&& !passed && used_up ==> s.text == "limit"@ && s.fg == Some(t.warn)
            &&& !passed && !used_up && item.expires_at is None ==> s.text == "live"@ && s.fg
                == Some(t.success)
            &&& !passed && !used_up && item.expires_at is Some ==> Some(s.text)
                == item.countdown_at(now)
        }),
{
}

/// A text that fits into its column is shown whole, and a longer one as the
/// longest beginning that leaves room, with an ellipsis.
pub proof fn law_long_texts_are_cut(s: Seq<char>, max: nat)
    requires
        max > 0,
    ensures
        text_bytes(s) <= max ==> truncated(s, max) == s,
        text_bytes(s) > max ==> {
            let r = truncated(s, max);
            &&& r.len() > 0
            &&& r.last() == '…'
            &&& r.drop_last().is_prefix_of(s)
            &&& text_bytes(r.drop_last()) <= max - 1
            &&& forall|k: int|
                0 <= k <= s.len() && text_bytes(#[trigger] s.take(k)) <= max - 1 ==> k < r.len()
        },
{
    if text_bytes(s) > max {
        reveal_strlit("…");
        crate::text::law_as_much_as_fits(s, (max - 1) as nat);
        let start = crate::text::fitting_start(s, (max - 1) as nat);
        assert((start + "…"@).drop_last() =~= start);
    }
}

/// The bar of a transfer is as wide as its row less two, and filled from the left
/// by as much as is done.
pub proof fn law_bars_are_filled_from_the_left(filled: nat, width: u16)
    requires
        filled <= bar_width(width),
    ensures
        bar_text(filled, bar_width(width)).len() == bar_width(width),
        width >= 2 ==> bar_width(width) == width - 2,
        forall|i: int|
            0 <= i < bar_width(width) ==> #[trigger] bar_text(filled, bar_width(width))[i] == (if i
                < filled {
                '█'
            } else {
                '░'
            }),
{
}

/// A download is shown in three lines: its name, its bar, and its percentage with
/// a word for how it is: given up, taken up again, done, or else its speed and
/// the time it still takes.
pub proof fn law_downloads_are_shown(d: DownloadStateView, f: Figures, width: u16, t: ThemeView)
    ensures
        ({
            let rows = download_rows(d, f, width, t);
            &&& rows.len() == 3
            &&& rows[0][1].text == d.name
            &&& rows[1][0].text == bar_text(f.filled as nat, bar_width(width))
            &&& rows[2][0].text == " "@ + f.percent@ + " % "@
            &&& d.cancelled ==> rows[2][1].text == "cancelled"@ + " "@ && rows[0][1].fg == Some(
                t.error,
            )
            &&& !d.cancelled && d.retrying ==> rows[2][1].text == "retrying..."@ + " "@
                && rows[0][1].fg == Some(t.warn)
            &&& !d.cancelled && !d.retrying && d.done ==> rows[2][1].text == "done"@ + " "@
                && rows[0][1].fg == Some(t.success)
            &&& !d.cancelled && !d.retrying && !d.done ==> rows[2][1].text == f.speed@ + " "@
                && rows[2][2].text == f.eta@ + " "@ && rows[0][1].fg == Some(t.download)
            &&& d.cancelled || d.done ==> rows[2][2].text.len() == 0
        }),
{
    reveal_strlit("");
}

/// An upload to a peer is shown in three lines: its name, its bar, and its
/// percentage with a word for how it is: given up, done, or else its speed and
/// the time it still takes.
pub proof fn law_uploads_are_shown(u: UploadStateView, f: Figures, width: u16, t: ThemeView)
    ensures
        ({
            let rows = upload_rows(u, f, width, t);
            &&& rows.len() == 3
            &&& rows[0][1].text == u.name
            &&& rows[1][0].text == bar_text(f.filled as nat, bar_width(width))
            &&& rows[2][0].text == " "@ + f.percent@ + " % "@
            &&& u.cancelled ==> rows[2][1].text == "cancelled"@ + " "@ && rows[0][1].fg == Some(
                t.error,
            )
            &&& !u.cancelled && u.done ==> rows[2][1].text == "done"@ + " "@ && rows[0][1].fg
                == Some(t.success)
            &&& !u.cancelled && !u.done ==> rows[2][1].text == f.speed@ + " "@ && rows[2][2].text
                == f.eta@ + " "@ && rows[0][1].fg == Some(t.upload)
            &&& u.cancelled || u.done ==> rows[2][2].text.len() == 0
        }),
{
    reveal_strlit("");
}

/// A browser's upload is shown in three lines: its name and where it comes from,
/// its bar, and its percentage, or the bytes that came where its size is not
/// known, with a word for how it is.
pub proof fn law_browser_uploads_are_shown(
    w: WebUploadStateView,
    f: Figures,
    width: u16,
    t: ThemeView,
)
    ensures
        ({
            let rows = web_upload_rows(w, f, width, t);
            &&& rows.len() == 3
            &&& rows[0][1].text == w.name
            &&& rows[0][2].text == " ← "@ + w.by_addr
            &&& rows[1][0].text == bar_text(f.filled as nat, bar_width(width))
            &&& w.total > 0 ==> rows[2][0].text == " "@ + f.percent@ + " % "@
            &&& w.total == 0 ==> rows[2][0].text == " "@ + size_text(w.bytes_received as nat)
                + " received "@
            &&& w.failed ==> rows[2][1].text == "failed"@ + " "@ && rows[0][1].fg == Some(t.error)
            &&& !w.failed && w.done ==> rows[2][1].text == "done"@ + " "@ && rows[0][1].fg == Some(
                t.success,
            )
            &&& !w.failed && !w.done ==> rows[2][1].text == f.speed@ + " "@ && rows[0][1].fg
                == Some(t.web_upload)
        }),
{
}

/// As many transfers are shown as fit with three lines each: the uploads to peers
/// first, then the browsers' uploads, then the downloads, each in their order.
pub proof fn law_transfers_are_shown_in_order(
    uploads: usize,
    web_uploads: usize,
    downloads: usize,
    height: u16,
)
    ensures
        ({
            let rows = shown_transfers(uploads, web_uploads, downloads, height);
            let all = uploads + web_uploads + downloads;
            &&& 3 * rows.len() <= height
            &&& rows.len() <= all
            &&& rows.len() == all || 3 * (rows.len() + 1) > height
            &&& forall|i: int|
                0 <= i < rows.len() ==> #[trigger] rows[i] == (if i < uploads {
                    TransferRow::Upload(i as usize)
                } else if i < uploads + web_uploads {
                    TransferRow::WebUpload((i - uploads) as usize)
                } else {
                    TransferRow::Download((i - uploads - web_uploads) as usize)
                })
        }),
        transfers_height(0) == 5,
        transfers_height(1) == 5,
        transfers_height(2) == 8,
        forall|n: nat| n >= 3 ==> #[trigger] transfers_height(n) == 11,
        forall|n: nat, t: ThemeView|
            n > 0 ==> (#[trigger] transfers_title_of(n, t)).text == " Transfers ("@ + decimal_text(n)
                + ") "@,
{
}

/// A note is shown with its time, a mark for its kind, and its words.
pub proof fn law_notes_are_shown(e: LogEntryView, time: Seq<char>, t: ThemeView)
    ensures
        ({
            let line = log_line_of(e, time, t);
            &&& line.len() == 3
            &&& line[0].text == " "@ + time + " "@
            &&& line[2].text == e.message
            &&& e.kind is Info ==> line[1].text == "· "@ && line[1].fg == Some(t.dim)
            &&& e.kind is Success ==> line[1].text == "✓ "@ && line[1].fg == Some(t.success)
            &&& e.kind is Warning ==> line[1].text == "! "@ && line[1].fg == Some(t.warn)
            &&& e.kind is Download ==> line[1].text == "⬇ "@ && line[1].fg == Some(t.download)
        }),
{
}

/// The bar at the top names the user and the port, and the bar at the bottom the
/// keys of the panel that takes them, the keys of every panel, and the folder for
/// downloads.
pub proof fn law_bars_tell_where_one_is(
    username: Seq<char>,
    port: u16,
    focus: Focus,
    manual_peer: bool,
    dir: Seq<char>,
    t: ThemeView,
)
    ensures
        shows(title_bar_of(username, port, t), username),
        shows(title_bar_of(username, port, t), " @ port "@ + decimal_text(port as nat)),
        ({
            let bar = status_bar_of(focus, manual_peer, dir, t);
            &&& bar[0].text == " [Tab] switch panel  "@
            &&& bar.last().text == "  DL→ "@ + dir
            &&& shows(bar, "[?] help  "@)
            &&& shows(bar, "[r] qr code  "@)
            &&& shows(bar, "[q] quit  "@)
            &&& focus is PeerList ==> shows(bar, "[Enter] browse files  "@)
            &&& focus is PeerList && manual_peer ==> shows(bar, "[x] remove manual peer  "@)
            &&& focus is PeerFiles ==> shows(bar, "[Enter/d] download  "@)
            &&& focus is MyShares ==> shows(bar, "[x/Del] remove share  "@) && shows(
                bar,
                "[m] add path  "@,
            )
            &&& focus is Transfers ==> shows(bar, "[p/Space] pause  "@) && shows(
                bar,
                "[c/Del] cancel  "@,
            )
        }),
{
    let title = title_bar_of(username, port, t);
    assert(title[2].text == username);
    assert(title[3].text == " @ port "@ + decimal_text(port as nat));
    let bar = status_bar_of(focus, manual_peer, dir, t);
    let n = bar.len();
    let hints = hints_of(focus, manual_peer, t);
    assert(bar[n - 4].text == "[?] help  "@);
    assert(bar[n - 3].text == "[r] qr code  "@);
    assert(bar[n - 2].text == "[q] quit  "@);
    assert(bar[2].text == hints[1].text);
    assert(bar[3].text == hints[2].text);
}

/// The question whether to zip a folder names the folder, its size and the number
/// of its files, and recommends it where it is worth it; the dialogs show what was
/// typed, and of a path too long for them its end.
pub proof fn law_dialogs_show_what_matters(
    req: ZipConfirmRequestView,
    typed: Seq<char>,
    area_width: u16,
    t: ThemeView,
)
    ensures
        ({
            let lines = zip_question(req, t);
            &&& lines[0][1].text == req.folder_name
            &&& lines[1][1].text == size_text(req.total_size as nat)
            &&& lines[1][2].text == "  ("@ + decimal_text(req.file_count as nat) + " files)"@
            &&& req.would_zip ==> lines[3][1].text == "Recommended: Yes (large folder)"@
            &&& !req.would_zip ==> lines[3][1].text == "Optional (small folder)"@
        }),
        address_dialog(typed, t).lines[2][1].text == typed,
        52 <= dialog_width(area_width) <= 70,
        52 <= area_width <= 70 ==> dialog_width(area_width) == area_width,
        ({
            let width = dialog_width(area_width);
            let shown = path_dialog(typed, width, t).lines[4][1].text;
            &&& shown.is_suffix_of(typed)
            &&& text_bytes(shown) <= width - 5
            &&& text_bytes(typed) <= width - 5 ==> shown == typed
        }),
{
    crate::text::law_as_much_as_fits(typed, path_room(dialog_width(area_width)));
}

/// The window with the QR code shows the address in words above the code, and each
/// module of the code in white where it is dark and in black where it is light.
pub proof fn law_qr_code_is_drawn(m: QrMatrix, url: Seq<char>, t: ThemeView, cell: QrCell)
    requires
        m.rows() >= 0,
    ensures
        qr_lines(m, url, t)[1][0].text == " "@ + url,
        qr_lines(m, url, t).len() == m.rows() + 5,
        cell is BothDark ==> cell_span(cell).fg == Some(Color::White),
        cell is TopDark ==> cell_span(cell).fg == Some(Color::White) && cell_span(cell).bg == Some(
            Color::Black,
        ) && cell_span(cell).text == "▀"@,
        cell is BottomDark ==> cell_span(cell).fg == Some(Color::Black) && cell_span(cell).bg
            == Some(Color::White) && cell_span(cell).text == "▀"@,
        cell is BothLight ==> cell_span(cell).bg == Some(Color::Black) && cell_span(cell).text
            == " "@,
{
}

/// A module of a QR code stands one row and one column further in than in the code
/// itself, and all around it is light.
pub proof fn law_qr_code_has_a_margin(m: QrMatrix, row: int, col: int)
    ensures
        0 <= row < m.width && 0 <= col < m.width ==> m.is_dark(row + 1, col + 1) == m.dark@[row
            * m.width + col],
        row <= 0 || col <= 0 || row > m.width || col > m.width ==> !m.is_dark(row, col),
        m.padded() == m.width + 2,
{
}

/// Browsers are given the address of this host that was found, unless that is no
/// address of a host in particular.
pub proof fn law_browsers_get_the_address(found: Seq<char>)
    ensures
        shown_address(None) == "127.0.0.1"@,
        shown_address(Some("0.0.0.0"@)) == "127.0.0.1"@,
        found != "0.0.0.0"@ ==> shown_address(Some(found)) == found,
{
}

}
