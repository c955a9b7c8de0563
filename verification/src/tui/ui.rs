//! What the user interface shows: panels, rows and overlays as coloured text.

use crate::client::RemoteShareInfo;
use crate::client::RemoteShareView;
use crate::discovery::{Peer, PeerView};
use crate::paths::{display_path, path_text};
use crate::shares::{human_size, size_text, ShareKind, SharedItem, SharedItemView};
use crate::text::{
    decimal, decimal_text, fitting_start, fits_within, opt_view, pad_left, pad_right, padded_left,
    padded_right, repeat_char, repeated, same, start_within, text_bytes, views,
};
use crate::time::Timestamp;
use crate::tui::app::{at, is_downloading, App, AppView};
use crate::tui::state::{
    DownloadState, DownloadStateView, Focus, LogEntry, LogEntryView, LogKind, UploadState,
    UploadStateView, WebUploadState, WebUploadStateView,
};
use crate::tui::theme::{Color, Theme, ThemeView};
use vstd::prelude::*;

verus! {

// ---------------------------------------------------------------------------
// Coloured text
// ---------------------------------------------------------------------------

/// A piece of text in one style.
#[derive(Debug)]
pub struct Span {
    pub text: String,
    pub fg: Option<Color>,
    pub bg: Option<Color>,
    pub bold: bool,
}

/// A piece of text in mathematical terms.
pub struct SpanView {
    pub text: Seq<char>,
    pub fg: Option<Color>,
    pub bg: Option<Color>,
    pub bold: bool,
}

impl View for Span {
    type V = SpanView;

    open spec fn view(&self) -> SpanView {
        SpanView { text: self.text@, fg: self.fg, bg: self.bg, bold: self.bold }
    }
}

/// A line of text.
#[derive(Debug)]
pub struct Line {
    pub spans: Vec<Span>,
}

impl View for Line {
    type V = Seq<SpanView>;

    open spec fn view(&self) -> Seq<SpanView> {
        views(self.spans@)
    }
}

/// A panel with a title, a border, and lines.
#[derive(Debug)]
pub struct Panel {
    pub title: Span,
    pub border: Color,
    pub lines: Vec<Line>,
}

/// A panel in mathematical terms.
#[verifier::ext_equal]
pub struct PanelView {
    pub title: SpanView,
    pub border: Color,
    pub lines: Seq<Seq<SpanView>>,
}

impl View for Panel {
    type V = PanelView;

    open spec fn view(&self) -> PanelView {
        PanelView { title: self.title@, border: self.border, lines: views(self.lines@) }
    }
}

/// Text without a style.
pub open spec fn plain_span(text: Seq<char>) -> SpanView {
    SpanView { text, fg: None, bg: None, bold: false }
}

/// Text in a colour.
pub open spec fn coloured_span(text: Seq<char>, fg: Color) -> SpanView {
    SpanView { text, fg: Some(fg), bg: None, bold: false }
}

/// Bold text in a colour.
pub open spec fn bold_span(text: Seq<char>, fg: Color) -> SpanView {
    SpanView { text, fg: Some(fg), bg: None, bold: true }
}

pub(crate) fn plain(text: &str) -> (r: Span)
    ensures
        r@ == plain_span(text@),
{
    Span { text: text.to_owned(), fg: None, bg: None, bold: false }
}

pub(crate) fn coloured(text: &str, fg: Color) -> (r: Span)
    ensures
        r@ == coloured_span(text@, fg),
{
    Span { text: text.to_owned(), fg: Some(fg), bg: None, bold: false }
}

pub(crate) fn bold(text: &str, fg: Color) -> (r: Span)
    ensures
        r@ == bold_span(text@, fg),
{
    Span { text: text.to_owned(), fg: Some(fg), bg: None, bold: true }
}

pub(crate) fn line1(a: Span) -> (r: Line)
    ensures
        r@ == seq![a@],
{
    let mut spans: Vec<Span> = Vec::new();
    spans.push(a);
    assert(views(spans@) =~= seq![a@]);
    Line { spans }
}

pub(crate) fn line2(a: Span, b: Span) -> (r: Line)
    ensures
        r@ == seq![a@, b@],
{
    let mut spans: Vec<Span> = Vec::new();
    spans.push(a);
    spans.push(b);
    assert(views(spans@) =~= seq![a@, b@]);
    Line { spans }
}

pub(crate) fn line3(a: Span, b: Span, c: Span) -> (r: Line)
    ensures
        r@ == seq![a@, b@, c@],
{
    let mut spans: Vec<Span> = Vec::new();
    spans.push(a);
    spans.push(b);
    spans.push(c);
    assert(views(spans@) =~= seq![a@, b@, c@]);
    Line { spans }
}

pub(crate) fn empty_line() -> (r: Line)
    ensures
        r@ == Seq::<SpanView>::empty(),
{
    let spans: Vec<Span> = Vec::new();
    assert(views(spans@) =~= Seq::<SpanView>::empty());
    Line { spans }
}

fn three(a: Line, b: Line, c: Line) -> (r: Vec<Line>)
    ensures
        views(r@) == seq![a@, b@, c@],
{
    let mut lines: Vec<Line> = Vec::new();
    lines.push(a);
    lines.push(b);
    lines.push(c);
    assert(views(lines@) =~= seq![a@, b@, c@]);
    lines
}

/// The colour of the border of a panel.
pub open spec fn border_colour(focused: bool, t: ThemeView) -> Color {
    if focused {
        t.accent
    } else {
        t.dim
    }
}

/// The colour of the title of a panel.
pub open spec fn title_colour(focused: bool, t: ThemeView) -> Color {
    if focused {
        t.accent
    } else {
        t.text
    }
}

fn border_of(focused: bool, t: &Theme) -> (r: Color)
    ensures
        r == border_colour(focused, t@),
{
    if focused {
        t.accent
    } else {
        t.dim
    }
}

fn title_of(focused: bool, t: &Theme) -> (r: Color)
    ensures
        r == title_colour(focused, t@),
{
    if focused {
        t.accent
    } else {
        t.text
    }
}

/// What stands before a row, selected or not.
pub open spec fn marker_text(selected: bool) -> Seq<char> {
    if selected {
        "▶ "@
    } else {
        "  "@
    }
}

fn marker(selected: bool) -> (r: &'static str)
    ensures
        r@ == marker_text(selected),
{
    if selected {
        "▶ "
    } else {
        "  "
    }
}

/// A name in a row: the selected one is bold, and set off where the panel
/// takes the keys.
pub open spec fn row_name(text: Seq<char>, selected: bool, focused: bool, t: ThemeView) -> SpanView {
    if selected && focused {
        SpanView { text, fg: Some(t.text), bg: Some(t.selected_bg), bold: true }
    } else if selected {
        SpanView { text, fg: None, bg: None, bold: true }
    } else {
        coloured_span(text, t.text)
    }
}

fn name_in_row(text: String, selected: bool, focused: bool, t: &Theme) -> (r: Span)
    ensures
        r@ == row_name(text@, selected, focused, t@),
{
    if selected && focused {
        Span { text, fg: Some(t.text), bg: Some(t.selected_bg), bold: true }
    } else if selected {
        Span { text, fg: None, bg: None, bold: true }
    } else {
        Span { text, fg: Some(t.text), bg: None, bold: false }
    }
}

/// `before`, a number, and `behind`.
pub(crate) fn numbered(before: &str, n: u64, behind: &str) -> (r: String)
    ensures
        r@ == before@ + decimal_text(n as nat) + behind@,
{
    let mut out = before.to_owned();
    out.append(decimal(n).as_str());
    out.append(behind);
    out
}

/// `before` and a text.
pub(crate) fn prefixed(before: &str, text: &str) -> (r: String)
    ensures
        r@ == before@ + text@,
{
    let mut out = before.to_owned();
    out.append(text);
    out
}

/// A text and `behind`.
fn suffixed(text: &str, behind: &str) -> (r: String)
    ensures
        r@ == text@ + behind@,
{
    let mut out = text.to_owned();
    out.append(behind);
    out
}

/// `before`, a text, and `behind`.
fn enclosed(before: &str, text: &str, behind: &str) -> (r: String)
    ensures
        r@ == before@ + text@ + behind@,
{
    let mut out = before.to_owned();
    out.append(text);
    out.append(behind);
    out
}

// ---------------------------------------------------------------------------
// The layout
// ---------------------------------------------------------------------------

/// The height of the panel of transfers: room for one transfer at least, so
/// that it does not jump, and for three at most.
pub open spec fn transfers_height(transfers: nat) -> nat {
    let wanted = 3 * transfers + 2;
    if wanted < 5 {
        5
    } else if wanted > 11 {
        11
    } else {
        wanted
    }
}

/// The height of the panel of transfers.
pub fn transfers_panel_height(downloads: usize, uploads: usize) -> (r: u16)
    ensures
        r == transfers_height((downloads + uploads) as nat),
{
    if downloads >= 3 || uploads >= 3 || downloads + uploads >= 3 {
        11
    } else if downloads + uploads == 2 {
        8
    } else {
        5
    }
}

/// A transfer by its place among those of its kind.
#[derive(Debug, Clone, Copy, PartialEq, Eq, Structural)]
pub enum TransferRow {
    Upload(usize),
    WebUpload(usize),
    Download(usize),
}

/// Which transfer stands in a row: the uploads to peers come first, then the
/// browsers' uploads, then the downloads.
pub open spec fn transfer_at(i: int, uploads: usize, web_uploads: usize) -> TransferRow {
    if i < uploads {
        TransferRow::Upload(i as usize)
    } else if i < uploads + web_uploads {
        TransferRow::WebUpload((i - uploads) as usize)
    } else {
        TransferRow::Download((i - uploads - web_uploads) as usize)
    }
}

/// The transfers that are shown in a height: as many as fit with three lines
/// each.
pub open spec fn shown_transfers(
    uploads: usize,
    web_uploads: usize,
    downloads: usize,
    height: u16,
) -> Seq<TransferRow> {
    let all = uploads + web_uploads + downloads;
    let room = height as int / 3;
    Seq::new(
        (if all < room {
            all
        } else {
            room
        }) as nat,
        |i: int| transfer_at(i, uploads, web_uploads),
    )
}

/// The transfers that are shown in a height, from the top down.
pub fn draw_transfers_panel(
    uploads: usize,
    web_uploads: usize,
    downloads: usize,
    height: u16,
) -> (r: Vec<TransferRow>)
    ensures
        r@ == shown_transfers(uploads, web_uploads, downloads, height),
{
    let room: usize = (height / 3) as usize;
    let ghost all = uploads + web_uploads + downloads;
    let mut rows: Vec<TransferRow> = Vec::new();
    let mut i: usize = 0;
    while i < room
        invariant
            i <= room,
            i <= all,
            room == height as int / 3,
            all == uploads + web_uploads + downloads,
            rows@ =~= Seq::new(i as nat, |k: int| transfer_at(k, uploads, web_uploads)),
        decreases room - i,
    {
        if i < uploads {
            rows.push(TransferRow::Upload(i));
        } else if i - uploads < web_uploads {
            rows.push(TransferRow::WebUpload(i - uploads));
        } else if i - uploads - web_uploads < downloads {
            rows.push(TransferRow::Download(i - uploads - web_uploads));
        } else {
            return rows;
        }
        i += 1;
    }
    rows
}

/// What is shown where nothing is transferred.
pub fn no_transfers_hint(t: &Theme) -> (r: Line)
    ensures
        r@ == seq![coloured_span("  No active transfers"@, t@.dim)],
{
    line1(coloured("  No active transfers", t.dim))
}

/// A rectangle of the terminal.
#[derive(Debug, Clone, Copy, PartialEq, Eq, Structural)]
pub struct Area {
    pub x: u16,
    pub y: u16,
    pub width: u16,
    pub height: u16,
}

/// The smaller of two lengths.
pub open spec fn shorter(a: u16, b: u16) -> u16 {
    if a < b {
        a
    } else {
        b
    }
}

/// Where something of a length begins that stands in the middle of another.
pub open spec fn centred(length: u16, whole: u16) -> u16 {
    if whole > length {
        ((whole - length) / 2) as u16
    } else {
        0
    }
}

/// An overlay in the middle of the terminal, no larger than it.
pub fn centred_popup(width: u16, height: u16, area_width: u16, area_height: u16) -> (r: Area)
    ensures
        r == (Area {
            x: centred(width, area_width),
            y: centred(height, area_height),
            width: shorter(width, area_width),
            height: shorter(height, area_height),
        }),
{
    Area {
        x: if area_width > width {
            (area_width - width) / 2
        } else {
            0
        },
        y: if area_height > height {
            (area_height - height) / 2
        } else {
            0
        },
        width: if width < area_width {
            width
        } else {
            area_width
        },
        height: if height < area_height {
            height
        } else {
            area_height
        },
    }
}

/// An overlay lies within the terminal.
pub proof fn law_popups_fit(width: u16, height: u16, area_width: u16, area_height: u16)
    ensures
        centred(width, area_width) + shorter(width, area_width) <= area_width,
        centred(height, area_height) + shorter(height, area_height) <= area_height,
{
}

// ---------------------------------------------------------------------------
// The title
// ---------------------------------------------------------------------------

/// The bar at the top.
pub open spec fn title_bar_of(username: Seq<char>, port: u16, t: ThemeView) -> Seq<SpanView> {
    seq![
        bold_span(" 📡 fileshare "@, t.accent),
        coloured_span("│ "@, t.dim),
        bold_span(username, t.text),
        coloured_span(" @ port "@ + decimal_text(port as nat), t.dim),
        coloured_span("  │  "@, t.dim),
        coloured_span("? help"@, t.dim),
        coloured_span("  r qr"@, t.dim),
    ]
}

/// The bar at the top.
pub fn title_bar(username: &str, port: u16, t: &Theme) -> (r: Line)
    ensures
        r@ == title_bar_of(username@, port, t@),
{
    let mut spans: Vec<Span> = Vec::new();
    spans.push(bold(" 📡 fileshare ", t.accent));
    spans.push(coloured("│ ", t.dim));
    spans.push(bold(username, t.text));
    spans.push(coloured(prefixed(" @ port ", decimal(port as u64).as_str()).as_str(), t.dim));
    spans.push(coloured("  │  ", t.dim));
    spans.push(coloured("? help", t.dim));
    spans.push(coloured("  r qr", t.dim));
    assert(views(spans@) =~= title_bar_of(username@, port, t@));
    Line { spans }
}

// ---------------------------------------------------------------------------
// Peers
// ---------------------------------------------------------------------------

/// The row of a peer.
pub open spec fn peer_row(p: PeerView, selected: bool, focused: bool, t: ThemeView) -> Seq<SpanView> {
    seq![
        plain_span(marker_text(selected)),
        SpanView {
            text: p.username,
            fg: Some(t.text),
            bg: if selected && focused {
                Some(t.selected_bg)
            } else {
                None
            },
            bold: selected,
        },
        coloured_span(" "@ + p.addr, t.dim),
        coloured_span(" ["@ + decimal_text(p.share_count as nat) + "]"@, t.accent),
        if p.manual {
            coloured_span(" [m]"@, t.warn)
        } else {
            plain_span(""@)
        },
    ]
}

/// The rows of the peers, of which one is selected.
pub open spec fn peer_rows(
    peers: Seq<PeerView>,
    selected: usize,
    focused: bool,
    t: ThemeView,
) -> Seq<Seq<SpanView>> {
    Seq::new(peers.len(), |i: int| peer_row(peers[i], i == selected, focused, t))
}

/// The panel of the peers.
pub open spec fn peers_panel_of(
    peers: Seq<PeerView>,
    selected: usize,
    focused: bool,
    t: ThemeView,
) -> PanelView {
    let removable = focused && at(peers, selected) is Some && at(peers, selected)->0.manual;
    PanelView {
        title: coloured_span(
            " Peers ("@ + decimal_text(peers.len()) + (if removable {
                ") — [x] remove "@
            } else {
                ") "@
            }),
            title_colour(focused, t),
        ),
        border: border_colour(focused, t),
        lines: if peers.len() == 0 {
            seq![
                seq![coloured_span("  No peers found"@, t.dim)],
                seq![coloured_span("  Press 'm' to add manually"@, t.dim)],
            ]
        } else {
            peer_rows(peers, selected, focused, t)
        },
    }
}

fn draw_peer(p: &Peer, selected: bool, focused: bool, t: &Theme) -> (r: Line)
    ensures
        r@ == peer_row(p@, selected, focused, t@),
{
    let mut spans: Vec<Span> = Vec::new();
    spans.push(plain(marker(selected)));
    spans.push(
        Span {
            text: p.username.clone(),
            fg: Some(t.text),
            bg: if selected && focused {
                Some(t.selected_bg)
            } else {
                None
            },
            bold: selected,
        },
    );
    spans.push(coloured(prefixed(" ", p.addr.as_str()).as_str(), t.dim));
    spans.push(coloured(numbered(" [", p.share_count as u64, "]").as_str(), t.accent));
    spans.push(
        if p.manual {
            coloured(" [m]", t.warn)
        } else {
            plain("")
        },
    );
    assert(views(spans@) =~= peer_row(p@, selected, focused, t@));
    Line { spans }
}

/// The panel of the peers.
pub fn draw_peer_list(app: &App, t: &Theme) -> (r: Panel)
    requires
        app.wf(),
    ensures
        r@ == peers_panel_of(
            app.peers.listed(),
            app.peer_list_state,
            app.focus == Focus::PeerList,
            t@,
        ),
{
    broadcast use crate::text::group_views;

    let focused = matches!(app.focus, Focus::PeerList);
    let peers = app.peer_list();
    let selected = app.peer_list_state;
    let ghost s = views(peers@);
    let removable = focused && selected < peers.len() && peers[selected].manual;
    assert(selected < peers@.len() ==> s[selected as int] == peers@[selected as int]@);
    let behind = if removable {
        ") — [x] remove "
    } else {
        ") "
    };
    let title = coloured(
        numbered(" Peers (", peers.len() as u64, behind).as_str(),
        title_of(focused, t),
    );
    let mut lines: Vec<Line> = Vec::new();
    if peers.len() == 0 {
        lines.push(line1(coloured("  No peers found", t.dim)));
        lines.push(line1(coloured("  Press 'm' to add manually", t.dim)));
        assert(views(lines@) =~= seq![
            seq![coloured_span("  No peers found"@, t@.dim)],
            seq![coloured_span("  Press 'm' to add manually"@, t@.dim)],
        ]);
    } else {
        let mut i: usize = 0;
        while i < peers.len()
            invariant
                i <= peers@.len(),
                s == views(peers@),
                views(lines@) =~= peer_rows(s, selected, focused, t@).take(i as int),
            decreases peers@.len() - i,
        {
            lines.push(draw_peer(&peers[i], i == selected, focused, t));
            i += 1;
            assert(peer_rows(s, selected, focused, t@).take(i as int) =~= peer_rows(
                s,
                selected,
                focused,
                t@,
            ).take(i - 1).push(peer_row(s[i - 1], (i - 1) == selected, focused, t@)));
        }
        assert(peer_rows(s, selected, focused, t@).take(i as int) =~= peer_rows(
            s,
            selected,
            focused,
            t@,
        ));
    }
    Panel { title, border: border_of(focused, t), lines }
}

// ---------------------------------------------------------------------------
// The files of a peer
// ---------------------------------------------------------------------------

/// The icon for a kind of share, by its word.
pub open spec fn remote_icon(kind: Seq<char>) -> Seq<char> {
    if kind == "folder"@ {
        "📁"@
    } else if kind == "zipped_folder"@ {
        "🗜 "@
    } else {
        "📄"@
    }
}

/// The row of a peer's file. Files that cannot be had and files that are being
/// downloaded are marked.
pub open spec fn file_row(
    f: RemoteShareView,
    downloading: bool,
    selected: bool,
    focused: bool,
    t: ThemeView,
) -> Seq<SpanView> {
    let text = f.name + (if f.available {
        ""@
    } else {
        " ✗"@
    }) + (if downloading {
        " ⬇"@
    } else {
        ""@
    });
    seq![
        plain_span(marker_text(selected)),
        plain_span(remote_icon(f.kind)),
        plain_span(" "@),
        if !f.available {
            coloured_span(text, t.dim)
        } else if downloading {
            coloured_span(text, t.download)
        } else {
            row_name(text, selected, focused, t)
        },
        coloured_span("  "@ + f.size_human, t.dim),
    ]
}

/// The rows of a peer's files, of which one is selected.
pub open spec fn file_rows(
    files: Seq<RemoteShareView>,
    downloads: Seq<DownloadStateView>,
    selected: usize,
    focused: bool,
    t: ThemeView,
) -> Seq<Seq<SpanView>> {
    Seq::new(
        files.len(),
        |i: int|
            file_row(files[i], is_downloading(downloads, files[i].id), i == selected, focused, t),
    )
}

/// The panel of the selected peer's files.
pub open spec fn files_panel_of(a: AppView, peer: Option<PeerView>, t: ThemeView) -> PanelView {
    let focused = a.focus == Focus::PeerFiles;
    PanelView {
        title: coloured_span(
            if a.peer_files_loading {
                " Loading… "@
            } else {
                match peer {
                    Some(p) => " "@ + p.username + "'s files ("@ + decimal_text(a.peer_files.len())
                        + ") "@,
                    None => " Files "@,
                }
            },
            title_colour(focused, t),
        ),
        border: border_colour(focused, t),
        lines: if a.peer_files.len() > 0 {
            file_rows(a.peer_files, a.active_downloads, a.peer_files_state, focused, t)
        } else if peer is None {
            seq![seq![coloured_span("  Select a peer →"@, t.dim)]]
        } else if !a.peer_files_loading {
            seq![seq![coloured_span("  No files shared"@, t.dim)]]
        } else {
            Seq::empty()
        },
    }
}

fn draw_file(f: &RemoteShareInfo, downloading: bool, selected: bool, focused: bool, t: &Theme) -> (r:
    Line)
    ensures
        r@ == file_row(f@, downloading, selected, focused, t@),
{
    let icon = if same(f.kind.as_str(), "folder") {
        "📁"
    } else if same(f.kind.as_str(), "zipped_folder") {
        "🗜 "
    } else {
        "📄"
    };
    let mut text = f.name.clone();
    text.append(
        if f.available {
            ""
        } else {
            " ✗"
        },
    );
    text.append(
        if downloading {
            " ⬇"
        } else {
            ""
        },
    );
    let name = if !f.available {
        coloured(text.as_str(), t.dim)
    } else if downloading {
        coloured(text.as_str(), t.download)
    } else {
        name_in_row(text, selected, focused, t)
    };
    let mut spans: Vec<Span> = Vec::new();
    spans.push(plain(marker(selected)));
    spans.push(plain(icon));
    spans.push(plain(" "));
    spans.push(name);
    spans.push(coloured(prefixed("  ", f.size_human.as_str()).as_str(), t.dim));
    assert(views(spans@) =~= file_row(f@, downloading, selected, focused, t@));
    Line { spans }
}

/// The panel of the selected peer's files.
pub fn draw_peer_files(app: &App, t: &Theme) -> (r: Panel)
    requires
        app.wf(),
    ensures
        r@ == files_panel_of(app@, at(app.peers.listed(), app.peer_list_state), t@),
{
    broadcast use crate::text::group_views;

    let focused = matches!(app.focus, Focus::PeerFiles);
    let peer = app.selected_peer();
    let ghost shown = opt_view(peer);
    let title = if app.peer_files_loading {
        " Loading… ".to_owned()
    } else {
        match &peer {
            Some(p) => {
                let mut out = enclosed(" ", p.username.as_str(), "'s files (");
                out.append(decimal(app.peer_files.len() as u64).as_str());
                out.append(") ");
                out
            },
            None => " Files ".to_owned(),
        }
    };
    let ghost files = app@.peer_files;
    let ghost downloads = app@.active_downloads;
    let selected = app.peer_files_state;
    let mut lines: Vec<Line> = Vec::new();
    if app.peer_files.len() > 0 {
        let mut i: usize = 0;
        while i < app.peer_files.len()
            invariant
                i <= app.peer_files@.len(),
                files == views(app.peer_files@),
                downloads == app@.active_downloads,
                views(lines@) =~= file_rows(files, downloads, selected, focused, t@).take(
                    i as int,
                ),
            decreases app.peer_files@.len() - i,
        {
            let f = &app.peer_files[i];
            let downloading = app.is_already_downloading(f.id.as_str());
            lines.push(draw_file(f, downloading, i == selected, focused, t));
            i += 1;
            assert(file_rows(files, downloads, selected, focused, t@).take(i as int) =~= file_rows(
                files,
                downloads,
                selected,
                focused,
                t@,
            ).take(i - 1).push(
                file_row(
                    files[i - 1],
                    is_downloading(downloads, files[i - 1].id),
                    (i - 1) == selected,
                    focused,
                    t@,
                ),
            ));
        }
        assert(file_rows(files, downloads, selected, focused, t@).take(i as int) =~= file_rows(
            files,
            downloads,
            selected,
            focused,
            t@,
        ));
    } else if peer.is_none() {
        lines.push(line1(coloured("  Select a peer →", t.dim)));
        assert(views(lines@) =~= seq![seq![coloured_span("  Select a peer →"@, t@.dim)]]);
    } else if !app.peer_files_loading {
        lines.push(line1(coloured("  No files shared", t.dim)));
        assert(views(lines@) =~= seq![seq![coloured_span("  No files shared"@, t@.dim)]]);
    }
    Panel {
        title: coloured(title.as_str(), title_of(focused, t)),
        border: border_of(focused, t),
        lines,
    }
}

// ---------------------------------------------------------------------------
// Transfers
// ---------------------------------------------------------------------------

/// What was calculated for the row of a transfer: how many characters of its
/// bar are filled, its percentage, its speed, and the time it will still take.
#[derive(Debug)]
pub struct Figures {
    pub filled: usize,
    pub percent: String,
    pub speed: String,
    pub eta: String,
}

/// How many characters the bar of a transfer has.
pub open spec fn bar_width(width: u16) -> nat {
    if width > 2 {
        (width - 2) as nat
    } else {
        0
    }
}

/// The width of the bar of a transfer in a row of this width.
pub fn transfer_bar_width(width: u16) -> (r: usize)
    ensures
        r == bar_width(width),
{
    if width > 2 {
        (width - 2) as usize
    } else {
        0
    }
}

/// A bar with a part of it filled.
pub open spec fn bar_text(filled: nat, width: nat) -> Seq<char> {
    repeated('█', filled) + repeated('░', (width - filled) as nat)
}

fn bar(filled: usize, width: usize) -> (r: String)
    requires
        filled <= width,
    ensures
        r@ == bar_text(filled as nat, width as nat),
{
    let mut out = repeat_char('█', filled);
    out.append(repeat_char('░', width - filled).as_str());
    out
}

/// The title and the colour of the panel of transfers.
pub open spec fn transfers_title_of(transfers: nat, t: ThemeView) -> SpanView {
    if transfers == 0 {
        coloured_span(" Transfers "@, t.dim)
    } else {
        coloured_span(" Transfers ("@ + decimal_text(transfers) + ") "@, t.download)
    }
}

/// The title of the panel of transfers.
pub fn transfers_title(transfers: usize, t: &Theme) -> (r: Span)
    ensures
        r@ == transfers_title_of(transfers as nat, t@),
{
    if transfers == 0 {
        coloured(" Transfers ", t.dim)
    } else {
        coloured(numbered(" Transfers (", transfers as u64, ") ").as_str(), t.download)
    }
}

/// The lines of a download: its name, its bar, and its figures. One that was
/// given up keeps its bar where it was.
pub open spec fn download_rows(
    d: DownloadStateView,
    f: Figures,
    width: u16,
    t: ThemeView,
) -> Seq<Seq<SpanView>> {
    let colour = if d.cancelled {
        t.error
    } else if d.retrying {
        t.warn
    } else if d.done {
        t.success
    } else {
        t.download
    };
    let icon = if d.cancelled {
        t.error
    } else if d.retrying {
        t.warn
    } else {
        t.download
    };
    let label = if d.cancelled {
        "cancelled"@
    } else if d.retrying {
        "retrying..."@
    } else if d.done {
        "done"@
    } else {
        f.speed@
    };
    let label_colour = if d.cancelled {
        t.error
    } else if d.retrying {
        t.warn
    } else {
        t.dim
    };
    seq![
        seq![bold_span(" ⬇ "@, icon), bold_span(d.name, colour)],
        seq![coloured_span(bar_text(f.filled as nat, bar_width(width)), colour)],
        seq![
            coloured_span(" "@ + f.percent@ + " % "@, t.text),
            coloured_span(label + " "@, label_colour),
            coloured_span(
                if !d.done && !d.cancelled {
                    f.eta@ + " "@
                } else {
                    ""@
                },
                t.dim,
            ),
        ],
    ]
}

/// The lines of a download.
pub fn draw_transfer_row_download(d: &DownloadState, f: &Figures, width: u16, t: &Theme) -> (r: Vec<
    Line,
>)
    requires
        f.filled <= bar_width(width),
    ensures
        views(r@) == download_rows(d@, *f, width, t@),
{
    let colour = if d.cancelled {
        t.error
    } else if d.retrying {
        t.warn
    } else if d.done {
        t.success
    } else {
        t.download
    };
    let icon = if d.cancelled {
        t.error
    } else if d.retrying {
        t.warn
    } else {
        t.download
    };
    let label = if d.cancelled {
        "cancelled"
    } else if d.retrying {
        "retrying..."
    } else if d.done {
        "done"
    } else {
        f.speed.as_str()
    };
    let label_colour = if d.cancelled {
        t.error
    } else if d.retrying {
        t.warn
    } else {
        t.dim
    };
    let eta = if !d.done && !d.cancelled {
        suffixed(f.eta.as_str(), " ")
    } else {
        "".to_owned()
    };
    three(
        line2(bold(" ⬇ ", icon), bold(d.name.as_str(), colour)),
        line1(coloured(bar(f.filled, transfer_bar_width(width)).as_str(), colour)),
        line3(
            coloured(enclosed(" ", f.percent.as_str(), " % ").as_str(), t.text),
            coloured(suffixed(label, " ").as_str(), label_colour),
            coloured(eta.as_str(), t.dim),
        ),
    )
}

/// The lines of an upload to a peer.
pub open spec fn upload_rows(
    u: UploadStateView,
    f: Figures,
    width: u16,
    t: ThemeView,
) -> Seq<Seq<SpanView>> {
    let colour = if u.cancelled {
        t.error
    } else if u.done {
        t.success
    } else {
        t.upload
    };
    let label = if u.cancelled {
        "cancelled"@
    } else if u.done {
        "done"@
    } else {
        f.speed@
    };
    seq![
        seq![bold_span(" ⬆ "@, colour), bold_span(u.name, colour)],
        seq![coloured_span(bar_text(f.filled as nat, bar_width(width)), colour)],
        seq![
            coloured_span(" "@ + f.percent@ + " % "@, t.text),
            coloured_span(
                label + " "@,
                if u.cancelled {
                    t.error
                } else {
                    t.dim
                },
            ),
            coloured_span(
                if !u.done && !u.cancelled {
                    f.eta@ + " "@
                } else {
                    ""@
                },
                t.dim,
            ),
        ],
    ]
}

/// The lines of an upload to a peer.
pub fn draw_transfer_row_upload(u: &UploadState, f: &Figures, width: u16, t: &Theme) -> (r: Vec<
    Line,
>)
    requires
        f.filled <= bar_width(width),
    ensures
        views(r@) == upload_rows(u@, *f, width, t@),
{
    let colour = if u.cancelled {
        t.error
    } else if u.done {
        t.success
    } else {
        t.upload
    };
    let label = if u.cancelled {
        "cancelled"
    } else if u.done {
        "done"
    } else {
        f.speed.as_str()
    };
    let label_colour = if u.cancelled {
        t.error
    } else {
        t.dim
    };
    let eta = if !u.done && !u.cancelled {
        suffixed(f.eta.as_str(), " ")
    } else {
        "".to_owned()
    };
    three(
        line2(bold(" ⬆ ", colour), bold(u.name.as_str(), colour)),
        line1(coloured(bar(f.filled, transfer_bar_width(width)).as_str(), colour)),
        line3(
            coloured(enclosed(" ", f.percent.as_str(), " % ").as_str(), t.text),
            coloured(suffixed(label, " ").as_str(), label_colour),
            coloured(eta.as_str(), t.dim),
        ),
    )
}

/// The lines of a browser's upload. Where its size is not known, the bytes
/// that were received stand in the place of a percentage.
pub open spec fn web_upload_rows(
    w: WebUploadStateView,
    f: Figures,
    width: u16,
    t: ThemeView,
) -> Seq<Seq<SpanView>> {
    let colour = if w.failed {
        t.error
    } else if w.done {
        t.success
    } else {
        t.web_upload
    };
    let label = if w.failed {
        "failed"@
    } else if w.done {
        "done"@
    } else {
        f.speed@
    };
    seq![
        seq![
            bold_span(" ↓ "@, colour),
            bold_span(w.name, colour),
            coloured_span(" ← "@ + w.by_addr, t.dim),
        ],
        seq![coloured_span(bar_text(f.filled as nat, bar_width(width)), colour)],
        if w.total > 0 {
            seq![
                coloured_span(" "@ + f.percent@ + " % "@, t.text),
                coloured_span(label + " "@, t.dim),
                coloured_span(f.eta@ + " "@, t.dim),
            ]
        } else {
            seq![
                coloured_span(
                    " "@ + size_text(w.bytes_received as nat) + " received "@,
                    t.text,
                ),
                coloured_span(label + " "@, t.dim),
            ]
        },
    ]
}

/// The lines of a browser's upload.
pub fn draw_transfer_row_web_upload(w: &WebUploadState, f: &Figures, width: u16, t: &Theme) -> (r:
    Vec<Line>)
    requires
        f.filled <= bar_width(width),
    ensures
        views(r@) == web_upload_rows(w@, *f, width, t@),
{
    let colour = if w.failed {
        t.error
    } else if w.done {
        t.success
    } else {
        t.web_upload
    };
    let label = if w.failed {
        "failed"
    } else if w.done {
        "done"
    } else {
        f.speed.as_str()
    };
    let status = coloured(suffixed(label, " ").as_str(), t.dim);
    let stats = if w.total > 0 {
        line3(
            coloured(enclosed(" ", f.percent.as_str(), " % ").as_str(), t.text),
            status,
            coloured(suffixed(f.eta.as_str(), " ").as_str(), t.dim),
        )
    } else {
        line2(
            coloured(
                enclosed(" ", human_size(w.bytes_received).as_str(), " received ").as_str(),
                t.text,
            ),
            status,
        )
    };
    three(
        line3(
            bold(" ↓ ", colour),
            bold(w.name.as_str(), colour),
            coloured(prefixed(" ← ", w.by_addr.as_str()).as_str(), t.dim),
        ),
        line1(coloured(bar(f.filled, transfer_bar_width(width)).as_str(), colour)),
        stats,
    )
}

// ---------------------------------------------------------------------------
// Shares
// ---------------------------------------------------------------------------

/// A text of at most `max` bytes, or its beginning with an ellipsis where it
/// is longer.
pub open spec fn truncated(s: Seq<char>, max: nat) -> Seq<char> {
    if text_bytes(s) <= max {
        s
    } else if max == 0 {
        "…"@
    } else {
        fitting_start(s, (max - 1) as nat) + "…"@
    }
}

/// A text of at most `max` bytes, or its beginning with an ellipsis where it
/// is longer.
pub fn truncate(s: &str, max: usize) -> (r: String)
    ensures
        r@ == truncated(s@, max as nat),
{
    if fits_within(s, max) {
        s.to_owned()
    } else if max == 0 {
        "…".to_owned()
    } else {
        let mut out = start_within(s, max - 1);
        out.append("…");
        out
    }
}

/// The icon of a kind of share.
pub open spec fn share_icon(kind: ShareKind) -> Seq<char> {
    match kind {
        ShareKind::File => "📄"@,
        ShareKind::Folder => "📁"@,
        ShareKind::ZippedFolder => "📦"@,
    }
}

/// Whether a share can be had at `now`, and for how long.
pub open spec fn status_span(item: SharedItemView, now: Timestamp, t: ThemeView) -> SpanView {
    if item.expired_at(now) {
        coloured_span("expired"@, t.warn)
    } else if item.limit_reached() {
        coloured_span("limit"@, t.warn)
    } else {
        match item.countdown_at(now) {
            Some(c) => coloured_span(c, t.warn),
            None => coloured_span("live"@, t.success),
        }
    }
}

/// How many characters the column of names has.
pub const NAME_WIDTH: usize = 30;

/// The row of a share.
pub open spec fn share_row(
    item: SharedItemView,
    now: Timestamp,
    selected: bool,
    focused: bool,
    t: ThemeView,
) -> Seq<SpanView> {
    seq![
        plain_span(marker_text(selected)),
        coloured_span("["@ + item.id + "] "@, t.accent),
        plain_span(share_icon(item.kind)),
        plain_span(" "@),
        row_name(
            padded_right(truncated(item.name, NAME_WIDTH as nat), NAME_WIDTH as nat),
            selected,
            focused,
            t,
        ),
        coloured_span("  "@ + padded_left(size_text(item.size as nat), 8), t.dim),
        coloured_span(
            "  "@ + padded_left(decimal_text(item.download_count as nat), 3) + "x  "@,
            t.dim,
        ),
        status_span(item, now, t),
    ]
}

/// The rows of the shares, of which one is selected.
pub open spec fn share_rows(
    items: Seq<SharedItemView>,
    now: Timestamp,
    selected: usize,
    focused: bool,
    t: ThemeView,
) -> Seq<Seq<SpanView>> {
    Seq::new(items.len(), |i: int| share_row(items[i], now, i == selected, focused, t))
}

/// What is shown where nothing is shared.
pub open spec fn no_shares_hint(t: ThemeView) -> Seq<Seq<SpanView>> {
    seq![
        Seq::empty(),
        seq![coloured_span("  No files shared yet."@, t.dim)],
        seq![coloured_span("  Drag & drop a file or folder into this terminal,"@, t.dim)],
        seq![coloured_span("  or press [m] to type a path."@, t.dim)],
    ]
}

/// The panel of the shares.
pub open spec fn shares_panel_of(
    items: Seq<SharedItemView>,
    now: Timestamp,
    selected: usize,
    focused: bool,
    t: ThemeView,
) -> PanelView {
    PanelView {
        title: coloured_span(
            " My Shares ("@ + decimal_text(items.len())
                + ") — drag & drop, [m] add path, [x] remove "@,
            title_colour(focused, t),
        ),
        border: border_colour(focused, t),
        lines: if items.len() == 0 {
            no_shares_hint(t)
        } else {
            share_rows(items, now, selected, focused, t)
        },
    }
}

/// The line above the shares.
pub open spec fn shares_header_of(t: ThemeView) -> Seq<SpanView> {
    seq![
        coloured_span("  ID       Name"@, t.dim),
        coloured_span("                                Size      DLs  Status"@, t.dim),
    ]
}

/// The line above the shares.
pub fn shares_header(t: &Theme) -> (r: Line)
    ensures
        r@ == shares_header_of(t@),
{
    line2(
        coloured("  ID       Name", t.dim),
        coloured("                                Size      DLs  Status", t.dim),
    )
}

fn draw_status(item: &SharedItem, now: &Timestamp, t: &Theme) -> (r: Span)
    ensures
        r@ == status_span(item@, *now, t@),
{
    if item.is_expired_at(now) {
        coloured("expired", t.warn)
    } else if item.is_limit_reached() {
        coloured("limit", t.warn)
    } else {
        match item.expiry_countdown_at(now) {
            Some(c) => coloured(c.as_str(), t.warn),
            None => coloured("live", t.success),
        }
    }
}

fn draw_share(item: &SharedItem, now: &Timestamp, selected: bool, focused: bool, t: &Theme) -> (r:
    Line)
    ensures
        r@ == share_row(item@, *now, selected, focused, t@),
{
    let icon = match item.kind {
        ShareKind::File => "📄",
        ShareKind::Folder => "📁",
        ShareKind::ZippedFolder => "📦",
    };
    let name = truncate(item.name.as_str(), NAME_WIDTH);
    let size = pad_left(item.size_human().as_str(), 8);
    let count = pad_left(decimal(item.download_count as u64).as_str(), 3);
    let mut spans: Vec<Span> = Vec::new();
    spans.push(plain(marker(selected)));
    spans.push(coloured(enclosed("[", item.id.as_str(), "] ").as_str(), t.accent));
    spans.push(plain(icon));
    spans.push(plain(" "));
    spans.push(name_in_row(pad_right(name.as_str(), NAME_WIDTH), selected, focused, t));
    spans.push(coloured(prefixed("  ", size.as_str()).as_str(), t.dim));
    spans.push(coloured(enclosed("  ", count.as_str(), "x  ").as_str(), t.dim));
    spans.push(draw_status(item, now, t));
    assert(views(spans@) =~= share_row(item@, *now, selected, focused, t@));
    Line { spans }
}

/// The panel of the shares.
pub fn draw_my_shares(app: &App, now: &Timestamp, t: &Theme) -> (r: Panel)
    requires
        app.wf(),
    ensures
        r@ == shares_panel_of(
            app.shares.listed(),
            *now,
            app.my_shares_state,
            app.focus == Focus::MyShares,
            t@,
        ),
{
    broadcast use crate::text::group_views;

    let focused = matches!(app.focus, Focus::MyShares);
    let items = app.my_shares();
    let selected = app.my_shares_state;
    let ghost s = views(items@);
    let title = coloured(
        numbered(
            " My Shares (",
            items.len() as u64,
            ") — drag & drop, [m] add path, [x] remove ",
        ).as_str(),
        title_of(focused, t),
    );
    let mut lines: Vec<Line> = Vec::new();
    if items.len() == 0 {
        lines.push(empty_line());
        lines.push(line1(coloured("  No files shared yet.", t.dim)));
        lines.push(line1(coloured("  Drag & drop a file or folder into this terminal,", t.dim)));
        lines.push(line1(coloured("  or press [m] to type a path.", t.dim)));
        assert(views(lines@) =~= no_shares_hint(t@));
    } else {
        let mut i: usize = 0;
        while i < items.len()
            invariant
                i <= items@.len(),
                s == views(items@),
                views(lines@) =~= share_rows(s, *now, selected, focused, t@).take(i as int),
            decreases items@.len() - i,
        {
            lines.push(draw_share(&items[i], now, i == selected, focused, t));
            i += 1;
            assert(share_rows(s, *now, selected, focused, t@).take(i as int) =~= share_rows(
                s,
                *now,
                selected,
                focused,
                t@,
            ).take(i - 1).push(share_row(s[i - 1], *now, (i - 1) == selected, focused, t@)));
        }
        assert(share_rows(s, *now, selected, focused, t@).take(i as int) =~= share_rows(
            s,
            *now,
            selected,
            focused,
            t@,
        ));
    }
    Panel { title, border: border_of(focused, t), lines }
}

// ---------------------------------------------------------------------------
// The log
// ---------------------------------------------------------------------------

/// The place of the first entry of the log that is shown in so many lines: the
/// last ones are.
pub fn first_visible(entries: usize, lines: usize) -> (r: usize)
    ensures
        r == (if entries > lines {
            entries - lines
        } else {
            0
        }),
{
    if entries > lines {
        entries - lines
    } else {
        0
    }
}

/// The line of a log entry, with the time of day as it is shown.
pub open spec fn log_line_of(e: LogEntryView, time: Seq<char>, t: ThemeView) -> Seq<SpanView> {
    let (icon, colour) = match e.kind {
        LogKind::Info => ("· "@, t.dim),
        LogKind::Success => ("✓ "@, t.success),
        LogKind::Warning => ("! "@, t.warn),
        LogKind::Download => ("⬇ "@, t.download),
    };
    seq![
        coloured_span(" "@ + time + " "@, t.dim),
        coloured_span(icon, colour),
        coloured_span(e.message, t.text),
    ]
}

/// The line of a log entry.
pub fn log_line(e: &LogEntry, time: &str, t: &Theme) -> (r: Line)
    ensures
        r@ == log_line_of(e@, time@, t@),
{
    let (icon, colour) = match e.kind {
        LogKind::Info => ("· ", t.dim),
        LogKind::Success => ("✓ ", t.success),
        LogKind::Warning => ("! ", t.warn),
        LogKind::Download => ("⬇ ", t.download),
    };
    line3(
        coloured(enclosed(" ", time, " ").as_str(), t.dim),
        coloured(icon, colour),
        coloured(e.message.as_str(), t.text),
    )
}

// ---------------------------------------------------------------------------
// The status bar
// ---------------------------------------------------------------------------

/// The keys that do something in the panel that takes them.
pub open spec fn hints_of(focus: Focus, manual_peer: bool, t: ThemeView) -> Seq<SpanView> {
    match focus {
        Focus::PeerList => if manual_peer {
            seq![
                coloured_span("[↑↓/jk] navigate  "@, t.dim),
                coloured_span("[Enter] browse files  "@, t.dim),
                coloured_span("[x] remove manual peer  "@, t.warn),
                coloured_span("[m] add peer  "@, t.dim),
            ]
        } else {
            seq![
                coloured_span("[↑↓/jk] navigate  "@, t.dim),
                coloured_span("[Enter] browse files  "@, t.dim),
                coloured_span("[m] add peer manually  "@, t.dim),
            ]
        },
        Focus::PeerFiles => seq![
            coloured_span("[↑↓/jk] navigate  "@, t.dim),
            coloured_span("[Enter/d] download  "@, t.dim),
            coloured_span("[←] back to peers  "@, t.dim),
        ],
        Focus::MyShares => seq![
            coloured_span("[↑↓/jk] navigate  "@, t.dim),
            coloured_span("[x/Del] remove share  "@, t.warn),
            coloured_span("[m] add path  "@, t.dim),
            coloured_span("drag & drop to add  "@, t.dim),
        ],
        Focus::Transfers => seq![
            coloured_span("[↑↓/jk] navigate  "@, t.dim),
            coloured_span("[p/Space] pause  "@, t.dim),
            coloured_span("[c/Del] cancel  "@, t.warn),
        ],
    }
}

/// The bar at the bottom.
pub open spec fn status_bar_of(
    focus: Focus,
    manual_peer: bool,
    dir: Seq<char>,
    t: ThemeView,
) -> Seq<SpanView> {
    seq![coloured_span(" [Tab] switch panel  "@, t.dim)] + hints_of(focus, manual_peer, t) + seq![
        coloured_span("[?] help  "@, t.dim),
        coloured_span("[r] qr code  "@, t.dim),
        coloured_span("[q] quit  "@, t.dim),
        coloured_span("  DL→ "@ + dir, t.dim),
    ]
}

fn push_hints(spans: &mut Vec<Span>, focus: &Focus, manual_peer: bool, t: &Theme)
    ensures
        views(final(spans)@) == views(old(spans)@) + hints_of(*focus, manual_peer, t@),
{
    broadcast use crate::text::group_views;

    let ghost before = views(spans@);
    spans.push(coloured("[↑↓/jk] navigate  ", t.dim));
    match focus {
        Focus::PeerList => {
            spans.push(coloured("[Enter] browse files  ", t.dim));
            if manual_peer {
                spans.push(coloured("[x] remove manual peer  ", t.warn));
                spans.push(coloured("[m] add peer  ", t.dim));
            } else {
                spans.push(coloured("[m] add peer manually  ", t.dim));
            }
        },
        Focus::PeerFiles => {
            spans.push(coloured("[Enter/d] download  ", t.dim));
            spans.push(coloured("[←] back to peers  ", t.dim));
        },
        Focus::MyShares => {
            spans.push(coloured("[x/Del] remove share  ", t.warn));
            spans.push(coloured("[m] add path  ", t.dim));
            spans.push(coloured("drag & drop to add  ", t.dim));
        },
        Focus::Transfers => {
            spans.push(coloured("[p/Space] pause  ", t.dim));
            spans.push(coloured("[c/Del] cancel  ", t.warn));
        },
    }
    assert(views(spans@) =~= before + hints_of(*focus, manual_peer, t@));
}

/// The bar at the bottom.
pub fn draw_status_bar(app: &App, t: &Theme) -> (r: Line)
    requires
        app.wf(),
    ensures
        r@ == status_bar_of(
            app.focus,
            at(app.peers.listed(), app.peer_list_state) is Some && at(
                app.peers.listed(),
                app.peer_list_state,
            )->0.manual,
            path_text(app@.config.download_dir),
            t@,
        ),
{
    broadcast use crate::text::group_views;

    let manual_peer = match app.selected_peer() {
        Some(p) => p.manual,
        None => false,
    };
    let dir = display_path(&app.config.download_dir);
    let mut spans: Vec<Span> = Vec::new();
    spans.push(coloured(" [Tab] switch panel  ", t.dim));
    assert(views(spans@) =~= seq![coloured_span(" [Tab] switch panel  "@, t@.dim)]);
    push_hints(&mut spans, &app.focus, manual_peer, t);
    spans.push(coloured("[?] help  ", t.dim));
    spans.push(coloured("[r] qr code  ", t.dim));
    spans.push(coloured("[q] quit  ", t.dim));
    spans.push(coloured(prefixed("  DL→ ", dir.as_str()).as_str(), t.dim));
    assert(views(spans@) =~= status_bar_of(app.focus, manual_peer, dir@, t@));
    Line { spans }
}

}
