//! The QR code of the address under which browsers find this host.

use crate::text::{decimal, decimal_text, opt_view, same, views};
use vstd::prelude::*;

verus! {

/// A QR code: how many modules it has on a side, and which of them are dark,
/// row by row.
#[derive(Debug)]
pub struct QrMatrix {
    pub width: usize,
    pub dark: Vec<bool>,
}

/// The QR code of some bytes: its width and its modules. Too many bytes have
/// none.
pub uninterp spec fn qr_code(data: Seq<u8>) -> Option<(nat, Seq<bool>)>;

/// `QrCode::new`, with `QrCode::width` and `QrCode::to_colors`: the QR code of
/// some bytes, which is a square of 21 to 177 modules on a side.
#[verifier::external_body]
fn qr_encode(data: &[u8]) -> (r: Option<QrMatrix>)
    ensures
        match r {
            Some(m) => qr_code(data@) == Some((m.width as nat, m.dark@)) && 21 <= m.width <= 177
                && m.dark@.len() == m.width * m.width,
            None => qr_code(data@) is None,
        },
{
    let code = qrcode::QrCode::new(data).ok()?;
    let dark = code.to_colors().into_iter().map(|c| c == qrcode::Color::Dark).collect();
    Some(QrMatrix { width: code.width(), dark })
}

/// How many light modules surround a QR code on each side.
pub const QUIET_ZONE: usize = 1;

/// What a character shows of the two modules that lie behind it, one above the
/// other.
#[derive(Debug, Clone, Copy, PartialEq, Eq, Structural)]
pub enum QrCell {
    BothDark,
    TopDark,
    BottomDark,
    BothLight,
}

impl QrMatrix {
    /// Whether there are as many modules as a square of this width has.
    pub open spec fn wf(self) -> bool {
        self.width <= 177 && self.dark@.len() == self.width * self.width
    }

    /// How many modules there are on a side with those that surround the code.
    pub open spec fn padded(self) -> int {
        self.width + 2 * QUIET_ZONE
    }

    /// Whether the module in a row and a column is dark, counted with those
    /// that surround the code. They are light.
    pub open spec fn is_dark(self, row: int, col: int) -> bool {
        let r = row - QUIET_ZONE;
        let c = col - QUIET_ZONE;
        0 <= r < self.width && 0 <= c < self.width && self.dark@[r * self.width + c]
    }

    /// What the character in a row and a column shows.
    pub open spec fn cell(self, row: int, col: int) -> QrCell {
        match (self.is_dark(2 * row, col), self.is_dark(2 * row + 1, col)) {
            (true, true) => QrCell::BothDark,
            (true, false) => QrCell::TopDark,
            (false, true) => QrCell::BottomDark,
            (false, false) => QrCell::BothLight,
        }
    }

    /// How many rows of characters show the code.
    pub open spec fn rows(self) -> int {
        (self.padded() + 1) / 2
    }

    /// What the characters of a row show.
    pub open spec fn row_cells(self, row: int) -> Seq<QrCell> {
        Seq::new(self.padded() as nat, |col: int| self.cell(row, col))
    }

    /// What all characters show, row by row.
    pub open spec fn cells_spec(self) -> Seq<Seq<QrCell>> {
        Seq::new(self.rows() as nat, |row: int| self.row_cells(row))
    }

    fn module(&self, row: usize, col: usize) -> (r: bool)
        requires
            self.wf(),
            row <= 200,
            col <= 200,
        ensures
            r == self.is_dark(row as int, col as int),
    {
        if row < QUIET_ZONE || col < QUIET_ZONE {
            return false;
        }
        let r: usize = row - QUIET_ZONE;
        let c: usize = col - QUIET_ZONE;
        let w = self.width;
        if r >= w || c >= w {
            return false;
        }
        proof {
            assert(r * w + c < w * w) by (nonlinear_arith)
                requires
                    r < w,
                    c < w,
            ;
            assert(r * w <= 177 * 177) by (nonlinear_arith)
                requires
                    r < w,
                    w <= 177,
            ;
        }
        self.dark[r * w + c]
    }

    fn draw_row(&self, row: usize) -> (r: Vec<QrCell>)
        requires
            self.wf(),
            row < 99,
        ensures
            r@ == self.row_cells(row as int),
    {
        let padded: usize = self.width + 2 * QUIET_ZONE;
        let mut cells: Vec<QrCell> = Vec::new();
        let mut col: usize = 0;
        while col < padded
            invariant
                self.wf(),
                row < 99,
                padded == self.padded(),
                col <= padded,
                cells@ =~= self.row_cells(row as int).take(col as int),
            decreases padded - col,
        {
            let top = self.module(2 * row, col);
            let bottom = self.module(2 * row + 1, col);
            let cell = if top && bottom {
                QrCell::BothDark
            } else if top {
                QrCell::TopDark
            } else if bottom {
                QrCell::BottomDark
            } else {
                QrCell::BothLight
            };
            cells.push(cell);
            col += 1;
        }
        assert(self.row_cells(row as int).take(col as int) =~= self.row_cells(row as int));
        cells
    }

    /// What the characters show, row by row. Each stands for two modules, one
    /// above the other.
    pub fn cells(&self) -> (r: Vec<Vec<QrCell>>)
        requires
            self.wf(),
        ensures
            views(r@) == self.cells_spec(),
    {
        broadcast use crate::text::group_views;

        let rows: usize = (self.width + 2 * QUIET_ZONE + 1) / 2;
        let mut out: Vec<Vec<QrCell>> = Vec::new();
        let mut row: usize = 0;
        while row < rows
            invariant
                self.wf(),
                rows == self.rows(),
                rows <= 90,
                row <= rows,
                views(out@) =~= self.cells_spec().take(row as int),
            decreases rows - row,
        {
            out.push(self.draw_row(row));
            row += 1;
            assert(self.cells_spec().take(row as int) =~= self.cells_spec().take(row - 1).push(
                self.row_cells(row - 1),
            ));
        }
        assert(self.cells_spec().take(row as int) =~= self.cells_spec());
        out
    }
}

/// The address of this host that browsers are given: the one that was found,
/// or the one by which the host reaches itself.
pub open spec fn shown_address(found: Option<Seq<char>>) -> Seq<char> {
    match found {
        Some(a) => if a == "0.0.0.0"@ {
            "127.0.0.1"@
        } else {
            a
        },
        None => "127.0.0.1"@,
    }
}

/// The URL under which browsers find this host.
pub fn browser_url(found: Option<String>, port: u16) -> (r: String)
    ensures
        r@ == "https://"@ + shown_address(opt_view(found)) + ":"@ + decimal_text(port as nat)
            + "/"@,
{
    let address = match found {
        Some(a) => if same(a.as_str(), "0.0.0.0") {
            "127.0.0.1".to_owned()
        } else {
            a
        },
        None => "127.0.0.1".to_owned(),
    };
    let mut out = "https://".to_owned();
    out.append(address.as_str());
    out.append(":");
    out.append(decimal(port as u64).as_str());
    out.append("/");
    out
}

/// The bytes of a text in UTF-8.
pub open spec fn url_bytes(url: Seq<char>) -> Seq<u8> {
    vstd::utf8::encode_utf8(url)
}

/// The QR code of a URL. There is none for a URL that is too long.
pub fn draw_qr(url: &str) -> (r: Option<QrMatrix>)
    ensures
        match r {
            Some(m) => m.wf() && qr_code(url_bytes(url@)) == Some((m.width as nat, m.dark@)),
            None => qr_code(url_bytes(url@)) is None,
        },
{
    qr_encode(url.as_bytes())
}

/// Every module of a QR code is shown, in the upper or the lower half of one
/// character, as dark as it is.
pub proof fn law_every_module_is_shown(m: QrMatrix, row: int, col: int)
    requires
        0 <= row < m.padded(),
        0 <= col < m.padded(),
    ensures
        row / 2 < m.rows(),
        ({
            let cell = m.cells_spec()[row / 2][col];
            let shown = if row % 2 == 0 {
                cell == QrCell::BothDark || cell == QrCell::TopDark
            } else {
                cell == QrCell::BothDark || cell == QrCell::BottomDark
            };
            shown == m.is_dark(row, col)
        }),
{
    assert(row == 2 * (row / 2) + row % 2);
}

}
