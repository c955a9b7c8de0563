//! The windows over the panels: the help, the dialogs and the QR code.

use crate::folder::{
    analyse_folder_full, file_count, max_depth, should_zip, total_size, worth_zipping, WalkEntry,
};
use crate::shares::{human_size, size_text};
use crate::text::{decimal_text, end_within, fitting_end, views};
use crate::tui::qr::{QrCell, QrMatrix};
use crate::tui::state::{ZipConfirmRequest, ZipConfirmRequestView};
use crate::tui::theme::{Color, Theme, ThemeView};
use crate::tui::ui::{
    bold, bold_span, coloured, coloured_span, empty_line, line1, line2, line3, numbered, plain,
    plain_span, prefixed, Line, Span, SpanView,
};
use std::path::PathBuf;
use vstd::prelude::*;

verus! {

/// A window over the panels, which stands in the middle of the terminal.
#[derive(Debug)]
pub struct Overlay {
    pub title: Option<Span>,
    pub width: u16,
    pub height: u16,
    pub lines: Vec<Line>,
}

/// A window in mathematical terms.
#[verifier::ext_equal]
pub struct OverlayView {
    pub title: Option<SpanView>,
    pub width: u16,
    pub height: u16,
    pub lines: Seq<Seq<SpanView>>,
}

impl View for Overlay {
    type V = OverlayView;

    open spec fn view(&self) -> OverlayView {
        OverlayView {
            title: match self.title {
                Some(s) => Some(s@),
                None => None,
            },
            width: self.width,
            height: self.height,
            lines: views(self.lines@),
        }
    }
}

// ---------------------------------------------------------------------------
// The help
// ---------------------------------------------------------------------------

/// What the keys do.
pub open spec fn help_lines(t: ThemeView) -> Seq<Seq<SpanView>> {
    seq![
        seq![bold_span(" Keyboard Shortcuts"@, t.accent)],
        Seq::empty(),
        seq![bold_span(" Navigation"@, t.text)],
        seq![coloured_span("  Tab / Shift+Tab   Switch panel"@, t.dim)],
        seq![coloured_span("  ↑/↓  or  j/k      Move selection"@, t.dim)],
        seq![coloured_span("  ←/→               Switch panels"@, t.dim)],
        Seq::empty(),
        seq![bold_span(" Peers"@, t.text)],
        seq![coloured_span("  m                 Add peer manually"@, t.dim)],
        seq![coloured_span("  x / Del           Remove manual peer"@, t.dim)],
        seq![coloured_span("  Enter             Browse peer's files"@, t.dim)],
        Seq::empty(),
        seq![bold_span(" Downloads"@, t.text)],
        seq![coloured_span("  Enter / d         Download selected"@, t.dim)],
        seq![coloured_span("  Multiple files can download simultaneously"@, t.dim)],
        seq![coloured_span("  SHA256 is verified automatically on completion"@, t.dim)],
        Seq::empty(),
        seq![bold_span(" Sharing"@, t.text)],
        seq![coloured_span("  x / Del           Remove your share"@, t.dim)],
        seq![coloured_span("  Drag & drop file  Share it instantly"@, t.dim)],
        seq![coloured_span("  Drag & drop folder  → zip dialog"@, t.dim)],
        seq![coloured_span("  m (in My Shares)  Type a path manually"@, t.dim)],
        Seq::empty(),
        seq![coloured_span("  ?                 Toggle this help"@, t.dim)],
        seq![coloured_span("  r                 Show QR code for web UI"@, t.dim)],
        seq![coloured_span("  q / Ctrl+C        Quit"@, t.dim)],
    ]
}

/// The help.
pub fn draw_help_overlay(t: &Theme) -> (r: Overlay)
    ensures
        r@ == (OverlayView { title: None, width: 54, height: 24, lines: help_lines(t@) }),
{
    let mut lines: Vec<Line> = Vec::new();
    lines.push(line1(bold(" Keyboard Shortcuts", t.accent)));
    lines.push(empty_line());
    lines.push(line1(bold(" Navigation", t.text)));
    lines.push(line1(coloured("  Tab / Shift+Tab   Switch panel", t.dim)));
    lines.push(line1(coloured("  ↑/↓  or  j/k      Move selection", t.dim)));
    lines.push(line1(coloured("  ←/→               Switch panels", t.dim)));
    lines.push(empty_line());
    lines.push(line1(bold(" Peers", t.text)));
    lines.push(line1(coloured("  m                 Add peer manually", t.dim)));
    lines.push(line1(coloured("  x / Del           Remove manual peer", t.dim)));
    lines.push(line1(coloured("  Enter             Browse peer's files", t.dim)));
    lines.push(empty_line());
    lines.push(line1(bold(" Downloads", t.text)));
    lines.push(line1(coloured("  Enter / d         Download selected", t.dim)));
    lines.push(line1(coloured("  Multiple files can download simultaneously", t.dim)));
    lines.push(line1(coloured("  SHA256 is verified automatically on completion", t.dim)));
    lines.push(empty_line());
    lines.push(line1(bold(" Sharing", t.text)));
    lines.push(line1(coloured("  x / Del           Remove your share", t.dim)));
    lines.push(line1(coloured("  Drag & drop file  Share it instantly", t.dim)));
    lines.push(line1(coloured("  Drag & drop folder  → zip dialog", t.dim)));
    lines.push(line1(coloured("  m (in My Shares)  Type a path manually", t.dim)));
    lines.push(empty_line());
    lines.push(line1(coloured("  ?                 Toggle this help", t.dim)));
    lines.push(line1(coloured("  r                 Show QR code for web UI", t.dim)));
    lines.push(line1(coloured("  q / Ctrl+C        Quit", t.dim)));
    assert(views(lines@) =~= help_lines(t@));
    Overlay { title: None, width: 54, height: 24, lines }
}

// ---------------------------------------------------------------------------
// Dialogs
// ---------------------------------------------------------------------------

/// The width of the dialog in which a path is typed.
pub open spec fn dialog_width(area_width: u16) -> u16 {
    if area_width < 52 {
        52
    } else if area_width > 70 {
        70
    } else {
        area_width
    }
}

/// The width of the dialog in which a path is typed.
pub fn path_dialog_width(area_width: u16) -> (r: u16)
    ensures
        r == dialog_width(area_width),
{
    if area_width < 52 {
        52
    } else if area_width > 70 {
        70
    } else {
        area_width
    }
}

/// How many bytes of a path a dialog of this width shows.
pub open spec fn path_room(width: u16) -> nat {
    if width < 5 {
        0
    } else {
        (width - 5) as nat
    }
}

/// The part of a path that is shown while it is typed: its end, where it is
/// too long for a dialog of this width.
pub fn visible_path(input: &str, width: u16) -> (r: String)
    ensures
        r@ == fitting_end(input@, path_room(width)),
{
    let room: usize = if width < 5 {
        0
    } else {
        (width - 5) as usize
    };
    end_within(input, room)
}

/// The line in which a text is typed.
pub open spec fn input_line_of(text: Seq<char>, t: ThemeView) -> Seq<SpanView> {
    seq![bold_span(" > "@, t.accent), coloured_span(text, t.text), coloured_span("█"@, t.accent)]
}

/// The line in which a text is typed.
pub fn input_line(text: &str, t: &Theme) -> (r: Line)
    ensures
        r@ == input_line_of(text@, t@),
{
    line3(bold(" > ", t.accent), coloured(text, t.text), coloured("█", t.accent))
}

/// The question whether a folder is to be zipped.
pub open spec fn zip_question(req: ZipConfirmRequestView, t: ThemeView) -> Seq<Seq<SpanView>> {
    seq![
        seq![coloured_span(" Folder: "@, t.dim), bold_span(req.folder_name, t.text)],
        seq![
            coloured_span(" Size:   "@, t.dim),
            coloured_span(size_text(req.total_size as nat), t.text),
            coloured_span("  ("@ + decimal_text(req.file_count as nat) + " files)"@, t.dim),
        ],
        Seq::empty(),
        seq![
            coloured_span(" Zip before sharing?  "@, t.dim),
            if req.would_zip {
                coloured_span("Recommended: Yes (large folder)"@, t.warn)
            } else {
                coloured_span("Optional (small folder)"@, t.dim)
            },
        ],
        seq![
            coloured_span(" Zipping saves bandwidth but takes time for large folders."@, t.dim),
        ],
        Seq::empty(),
        seq![
            coloured_span("  [y] Zip & share    [n] Share as-is    [Esc] Cancel"@, t.text),
        ],
    ]
}

/// The window that asks whether a folder is to be zipped.
pub open spec fn zip_overlay(req: ZipConfirmRequestView, t: ThemeView) -> OverlayView {
    OverlayView {
        title: Some(bold_span(" 📁 Share Folder "@, t.accent)),
        width: 56,
        height: 11,
        lines: zip_question(req, t),
    }
}

/// The window that asks whether a folder is to be zipped.
pub fn draw_zip_confirm_overlay(req: &ZipConfirmRequest, t: &Theme) -> (r: Overlay)
    ensures
        r@ == zip_overlay(req@, t@),
{
    let hint = if req.would_zip {
        coloured("Recommended: Yes (large folder)", t.warn)
    } else {
        coloured("Optional (small folder)", t.dim)
    };
    let mut lines: Vec<Line> = Vec::new();
    lines.push(line2(coloured(" Folder: ", t.dim), bold(req.folder_name.as_str(), t.text)));
    lines.push(
        line3(
            coloured(" Size:   ", t.dim),
            coloured(human_size(req.total_size).as_str(), t.text),
            coloured(numbered("  (", req.file_count as u64, " files)").as_str(), t.dim),
        ),
    );
    lines.push(empty_line());
    lines.push(line2(coloured(" Zip before sharing?  ", t.dim), hint));
    lines.push(
        line1(coloured(" Zipping saves bandwidth but takes time for large folders.", t.dim)),
    );
    lines.push(empty_line());
    lines.push(line1(coloured("  [y] Zip & share    [n] Share as-is    [Esc] Cancel", t.text)));
    assert(views(lines@) =~= zip_question(req@, t@));
    Overlay { title: Some(bold(" 📁 Share Folder ", t.accent)), width: 56, height: 11, lines }
}

/// The question whether a folder is to be zipped, for a folder in which a walk
/// finds these entries.
pub fn zip_request(path: PathBuf, folder_name: String, entries: &Vec<WalkEntry>) -> (r:
    ZipConfirmRequest)
    requires
        total_size(entries@) <= u64::MAX,
    ensures
        r@ == (ZipConfirmRequestView {
            path,
            folder_name: folder_name@,
            file_count: file_count(entries@) as usize,
            total_size: total_size(entries@) as u64,
            would_zip: worth_zipping(
                file_count(entries@) as usize,
                max_depth(entries@),
            ),
        }),
{
    let (file_count, max_depth, total_size) = analyse_folder_full(entries);
    ZipConfirmRequest {
        path,
        folder_name,
        file_count,
        total_size,
        would_zip: should_zip(file_count, max_depth),
    }
}

/// The dialog in which the address of a peer is typed.
pub open spec fn address_dialog(input: Seq<char>, t: ThemeView) -> OverlayView {
    OverlayView {
        title: Some(plain_span(" Add Peer Manually "@)),
        width: 44,
        height: 5,
        lines: seq![
            seq![coloured_span(" Enter peer IP (e.g. 192.168.1.5 or :7778)"@, t.dim)],
            Seq::empty(),
            input_line_of(input, t),
        ],
    }
}

/// The dialog in which the address of a peer is typed.
pub fn draw_manual_ip_overlay(input: &str, t: &Theme) -> (r: Overlay)
    ensures
        r@ == address_dialog(input@, t@),
{
    let mut lines: Vec<Line> = Vec::new();
    lines.push(line1(coloured(" Enter peer IP (e.g. 192.168.1.5 or :7778)", t.dim)));
    lines.push(empty_line());
    lines.push(input_line(input, t));
    assert(views(lines@) =~= address_dialog(input@, t@).lines);
    Overlay { title: Some(plain(" Add Peer Manually ")), width: 44, height: 5, lines }
}

/// The dialog of a width in which a path is typed.
pub open spec fn path_dialog(input: Seq<char>, width: u16, t: ThemeView) -> OverlayView {
    OverlayView {
        title: Some(bold_span(" 📂 Add Path Manually "@, t.accent)),
        width,
        height: 7,
        lines: seq![
            seq![coloured_span(" Enter file or folder path:"@, t.dim)],
            seq![coloured_span(" Windows: C:\\Users\\Tim\\Downloads\\file.txt"@, t.dim)],
            seq![coloured_span(" Unix:    /home/tim/downloads/file.txt"@, t.dim)],
            Seq::empty(),
            input_line_of(fitting_end(input, path_room(width)), t),
        ],
    }
}

/// The dialog in which a path is typed, in a terminal of this width.
pub fn draw_manual_path_overlay(input: &str, area_width: u16, t: &Theme) -> (r: Overlay)
    ensures
        r@ == path_dialog(input@, dialog_width(area_width), t@),
{
    let width = path_dialog_width(area_width);
    let mut lines: Vec<Line> = Vec::new();
    lines.push(line1(coloured(" Enter file or folder path:", t.dim)));
    lines.push(line1(coloured(" Windows: C:\\Users\\Tim\\Downloads\\file.txt", t.dim)));
    lines.push(line1(coloured(" Unix:    /home/tim/downloads/file.txt", t.dim)));
    lines.push(empty_line());
    lines.push(input_line(visible_path(input, width).as_str(), t));
    assert(views(lines@) =~= path_dialog(input@, width, t@).lines);
    Overlay { title: Some(bold(" 📂 Add Path Manually ", t.accent)), width, height: 7, lines }
}

// ---------------------------------------------------------------------------
// The QR code
// ---------------------------------------------------------------------------

/// A character that shows two modules of a QR code: the dark ones are white,
/// the light ones black.
pub open spec fn cell_span(cell: QrCell) -> SpanView {
    let (text, fg, bg) = match cell {
        QrCell::BothDark => ("█"@, Color::White, Color::Black),
        QrCell::TopDark => ("▀"@, Color::White, Color::Black),
        QrCell::BottomDark => ("▀"@, Color::Black, Color::White),
        QrCell::BothLight => (" "@, Color::Black, Color::Black),
    };
    SpanView { text, fg: Some(fg), bg: Some(bg), bold: false }
}

/// A row of characters that show a QR code, behind a margin.
pub open spec fn cell_row(cells: Seq<QrCell>) -> Seq<SpanView> {
    seq![plain_span(" "@)] + Seq::new(cells.len(), |i: int| cell_span(cells[i]))
}

/// The rows of characters that show a QR code.
pub open spec fn cell_rows(cells: Seq<Seq<QrCell>>) -> Seq<Seq<SpanView>> {
    Seq::new(cells.len(), |i: int| cell_row(cells[i]))
}

/// The lines of the window that shows the QR code of a URL.
pub open spec fn qr_lines(m: QrMatrix, url: Seq<char>, t: ThemeView) -> Seq<Seq<SpanView>> {
    seq![
        seq![bold_span(" Scan to open web UI "@, t.accent)],
        seq![coloured_span(" "@ + url, t.text)],
        Seq::empty(),
    ] + cell_rows(m.cells_spec()) + seq![
        Seq::empty(),
        seq![coloured_span(" [r / Esc] close "@, t.dim)],
    ]
}

/// The window that shows the QR code of a URL.
pub open spec fn qr_overlay(m: QrMatrix, url: Seq<char>, t: ThemeView) -> OverlayView {
    OverlayView {
        title: Some(bold_span(" 📱 QR Code "@, t.accent)),
        width: (m.padded() + 3) as u16,
        height: (m.rows() + 7) as u16,
        lines: qr_lines(m, url, t),
    }
}

fn draw_cell(cell: QrCell) -> (r: Span)
    ensures
        r@ == cell_span(cell),
{
    let (text, fg, bg) = match cell {
        QrCell::BothDark => ("█", Color::White, Color::Black),
        QrCell::TopDark => ("▀", Color::White, Color::Black),
        QrCell::BottomDark => ("▀", Color::Black, Color::White),
        QrCell::BothLight => (" ", Color::Black, Color::Black),
    };
    Span { text: text.to_owned(), fg: Some(fg), bg: Some(bg), bold: false }
}

fn draw_cell_row(cells: &Vec<QrCell>) -> (r: Line)
    ensures
        r@ == cell_row(cells@),
{
    broadcast use crate::text::group_views;

    let mut spans: Vec<Span> = Vec::new();
    spans.push(plain(" "));
    let mut i: usize = 0;
    while i < cells.len()
        invariant
            i <= cells@.len(),
            views(spans@) =~= cell_row(cells@).take(i + 1),
        decreases cells@.len() - i,
    {
        spans.push(draw_cell(cells[i]));
        i += 1;
        assert(cell_row(cells@).take(i + 1) =~= cell_row(cells@).take(i as int).push(
            cell_span(cells@[i - 1]),
        ));
    }
    assert(cell_row(cells@).take(i + 1) =~= cell_row(cells@));
    Line { spans }
}

/// The window that shows the QR code of a URL.
pub fn draw_qr_overlay(m: &QrMatrix, url: &str, t: &Theme) -> (r: Overlay)
    requires
        m.wf(),
    ensures
        r@ == qr_overlay(*m, url@, t@),
{
    broadcast use crate::text::group_views;

    let cells = m.cells();
    let mut lines: Vec<Line> = Vec::new();
    lines.push(line1(bold(" Scan to open web UI ", t.accent)));
    lines.push(line1(coloured(prefixed(" ", url).as_str(), t.text)));
    lines.push(empty_line());
    let ghost shown = qr_lines(*m, url@, t@);
    assert(views(lines@) =~= shown.take(3));
    let mut i: usize = 0;
    while i < cells.len()
        invariant
            i <= cells@.len(),
            views(cells@) == m.cells_spec(),
            shown == qr_lines(*m, url@, t@),
            views(lines@) =~= shown.take(3 + i),
        decreases cells@.len() - i,
    {
        lines.push(draw_cell_row(&cells[i]));
        i += 1;
        assert(views(cells@)[i - 1] == cells@[i - 1]@);
        assert(shown.take(3 + i) =~= shown.take(3 + i - 1).push(cell_row(m.cells_spec()[i - 1])));
    }
    lines.push(empty_line());
    lines.push(line1(coloured(" [r / Esc] close ", t.dim)));
    assert(views(lines@) =~= shown);
    assert(lines@.len() == m.rows() + 5);
    let width = (m.width + 5) as u16;
    let height = (lines.len() + 2) as u16;
    Overlay { title: Some(bold(" 📱 QR Code ", t.accent)), width, height, lines }
}

}
