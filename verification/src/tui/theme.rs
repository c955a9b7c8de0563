//! Colours, and the themes that put them together.

use vstd::prelude::*;

verus! {

/// A colour of the terminal.
#[derive(Debug, Clone, Copy, PartialEq, Eq, Structural)]
pub enum Color {
    Black,
    White,
    DarkGray,
    Red,
    Green,
    Yellow,
    Magenta,
    Cyan,
    Rgb(u8, u8, u8),
}

/// The colours of the user interface.
#[derive(Debug, Clone, Copy)]
pub struct Theme {
    pub name: &'static str,
    /// Borders, titles, highlights.
    pub accent: Color,
    /// Secondary text, inactive elements.
    pub dim: Color,
    /// What is done or live.
    pub success: Color,
    /// Warnings, and what is about to end.
    pub warn: Color,
    /// What was cancelled or failed.
    pub error: Color,
    /// Downloads.
    pub download: Color,
    /// Uploads to peers.
    pub upload: Color,
    /// Uploads from browsers.
    pub web_upload: Color,
    /// Behind the selected row.
    pub selected_bg: Color,
    /// Behind the bars at the top and bottom.
    pub bar_bg: Color,
    /// Behind overlays.
    pub overlay_bg: Color,
    /// Primary text.
    pub text: Color,
}

/// A theme in mathematical terms.
pub struct ThemeView {
    pub name: Seq<char>,
    pub accent: Color,
    pub dim: Color,
    pub success: Color,
    pub warn: Color,
    pub error: Color,
    pub download: Color,
    pub upload: Color,
    pub web_upload: Color,
    pub selected_bg: Color,
    pub bar_bg: Color,
    pub overlay_bg: Color,
    pub text: Color,
}

impl View for Theme {
    type V = ThemeView;

    open spec fn view(&self) -> ThemeView {
        ThemeView {
            name: self.name@,
            accent: self.accent,
            dim: self.dim,
            success: self.success,
            warn: self.warn,
            error: self.error,
            download: self.download,
            upload: self.upload,
            web_upload: self.web_upload,
            selected_bg: self.selected_bg,
            bar_bg: self.bar_bg,
            overlay_bg: self.overlay_bg,
            text: self.text,
        }
    }
}

/// How many themes there are.
pub const THEME_COUNT: usize = 5;

/// The themes, in the order in which the user goes through them.
pub open spec fn theme_at(idx: int) -> ThemeView {
    if idx == 0 {
        ThemeView {
            name: "Ocean"@,
            accent: Color::Cyan,
            dim: Color::DarkGray,
            success: Color::Green,
            warn: Color::Yellow,
            error: Color::Red,
            download: Color::Magenta,
            upload: Color::Rgb(255, 165, 0),
            web_upload: Color::Rgb(100, 200, 255),
            selected_bg: Color::Rgb(30, 50, 60),
            bar_bg: Color::Rgb(15, 20, 30),
            overlay_bg: Color::Rgb(10, 15, 25),
            text: Color::White,
        }
    } else if idx == 1 {
        ThemeView {
            name: "Dracula"@,
            accent: Color::Rgb(189, 147, 249),
            dim: Color::Rgb(98, 114, 164),
            success: Color::Rgb(80, 250, 123),
            warn: Color::Rgb(255, 184, 108),
            error: Color::Rgb(255, 85, 85),
            download: Color::Rgb(255, 121, 198),
            upload: Color::Rgb(255, 184, 108),
            web_upload: Color::Rgb(139, 233, 253),
            selected_bg: Color::Rgb(68, 71, 90),
            bar_bg: Color::Rgb(33, 34, 44),
            overlay_bg: Color::Rgb(22, 22, 30),
            text: Color::Rgb(248, 248, 242),
        }
    } else if idx == 2 {
        ThemeView {
            name: "Nord"@,
            accent: Color::Rgb(136, 192, 208),
            dim: Color::Rgb(76, 86, 106),
            success: Color::Rgb(163, 190, 140),
            warn: Color::Rgb(235, 203, 139),
            error: Color::Rgb(191, 97, 106),
            download: Color::Rgb(180, 142, 173),
            upload: Color::Rgb(208, 135, 112),
            web_upload: Color::Rgb(143, 188, 187),
            selected_bg: Color::Rgb(59, 66, 82),
            bar_bg: Color::Rgb(36, 41, 51),
            overlay_bg: Color::Rgb(29, 33, 42),
            text: Color::Rgb(229, 233, 240),
        }
    } else if idx == 3 {
        ThemeView {
            name: "Gruvbox"@,
            accent: Color::Rgb(214, 152, 33),
            dim: Color::Rgb(146, 131, 116),
            success: Color::Rgb(152, 151, 26),
            warn: Color::Rgb(215, 153, 33),
            error: Color::Rgb(204, 36, 29),
            download: Color::Rgb(177, 98, 134),
            upload: Color::Rgb(214, 93, 14),
            web_upload: Color::Rgb(104, 157, 106),
            selected_bg: Color::Rgb(80, 73, 69),
            bar_bg: Color::Rgb(40, 36, 32),
            overlay_bg: Color::Rgb(29, 26, 24),
            text: Color::Rgb(235, 219, 178),
        }
    } else {
        ThemeView {
            name: "Matrix"@,
            accent: Color::Rgb(0, 255, 70),
            dim: Color::Rgb(0, 100, 30),
            success: Color::Rgb(0, 255, 70),
            warn: Color::Rgb(180, 255, 0),
            error: Color::Rgb(255, 50, 50),
            download: Color::Rgb(0, 200, 100),
            upload: Color::Rgb(100, 255, 150),
            web_upload: Color::Rgb(0, 220, 180),
            selected_bg: Color::Rgb(0, 40, 15),
            bar_bg: Color::Rgb(0, 15, 5),
            overlay_bg: Color::Rgb(0, 8, 3),
            text: Color::Rgb(180, 255, 200),
        }
    }
}

/// The theme at a place.
pub fn theme(idx: usize) -> (r: Theme)
    requires
        idx < THEME_COUNT,
    ensures
        r@ == theme_at(idx as int),
{
    if idx == 0 {
        Theme {
            name: "Ocean",
            accent: Color::Cyan,
            dim: Color::DarkGray,
            success: Color::Green,
            warn: Color::Yellow,
            error: Color::Red,
            download: Color::Magenta,
            upload: Color::Rgb(255, 165, 0),
            web_upload: Color::Rgb(100, 200, 255),
            selected_bg: Color::Rgb(30, 50, 60),
            bar_bg: Color::Rgb(15, 20, 30),
            overlay_bg: Color::Rgb(10, 15, 25),
            text: Color::White,
        }
    } else if idx == 1 {
        Theme {
            name: "Dracula",
            accent: Color::Rgb(189, 147, 249),
            dim: Color::Rgb(98, 114, 164),
            success: Color::Rgb(80, 250, 123),
            warn: Color::Rgb(255, 184, 108),
            error: Color::Rgb(255, 85, 85),
            download: Color::Rgb(255, 121, 198),
            upload: Color::Rgb(255, 184, 108),
            web_upload: Color::Rgb(139, 233, 253),
            selected_bg: Color::Rgb(68, 71, 90),
            bar_bg: Color::Rgb(33, 34, 44),
            overlay_bg: Color::Rgb(22, 22, 30),
            text: Color::Rgb(248, 248, 242),
        }
    } else if idx == 2 {
        Theme {
            name: "Nord",
            accent: Color::Rgb(136, 192, 208),
            dim: Color::Rgb(76, 86, 106),
            success: Color::Rgb(163, 190, 140),
            warn: Color::Rgb(235, 203, 139),
            error: Color::Rgb(191, 97, 106),
            download: Color::Rgb(180, 142, 173),
            upload: Color::Rgb(208, 135, 112),
            web_upload: Color::Rgb(143, 188, 187),
            selected_bg: Color::Rgb(59, 66, 82),
            bar_bg: Color::Rgb(36, 41, 51),
            overlay_bg: Color::Rgb(29, 33, 42),
            text: Color::Rgb(229, 233, 240),
        }
    } else if idx == 3 {
        Theme {
            name: "Gruvbox",
            accent: Color::Rgb(214, 152, 33),
            dim: Color::Rgb(146, 131, 116),
            success: Color::Rgb(152, 151, 26),
            warn: Color::Rgb(215, 153, 33),
            error: Color::Rgb(204, 36, 29),
            download: Color::Rgb(177, 98, 134),
            upload: Color::Rgb(214, 93, 14),
            web_upload: Color::Rgb(104, 157, 106),
            selected_bg: Color::Rgb(80, 73, 69),
            bar_bg: Color::Rgb(40, 36, 32),
            overlay_bg: Color::Rgb(29, 26, 24),
            text: Color::Rgb(235, 219, 178),
        }
    } else {
        Theme {
            name: "Matrix",
            accent: Color::Rgb(0, 255, 70),
            dim: Color::Rgb(0, 100, 30),
            success: Color::Rgb(0, 255, 70),
            warn: Color::Rgb(180, 255, 0),
            error: Color::Rgb(255, 50, 50),
            download: Color::Rgb(0, 200, 100),
            upload: Color::Rgb(100, 255, 150),
            web_upload: Color::Rgb(0, 220, 180),
            selected_bg: Color::Rgb(0, 40, 15),
            bar_bg: Color::Rgb(0, 15, 5),
            overlay_bg: Color::Rgb(0, 8, 3),
            text: Color::Rgb(180, 255, 200),
        }
    }
}

/// The unit in which speeds are shown.
#[derive(Debug, Clone, Copy, PartialEq, Eq, Structural)]
pub enum SpeedUnit {
    Bytes,
    Bits,
}

impl SpeedUnit {
    /// The other unit.
    pub open spec fn toggled(self) -> SpeedUnit {
        match self {
            SpeedUnit::Bytes => SpeedUnit::Bits,
            SpeedUnit::Bits => SpeedUnit::Bytes,
        }
    }

    /// The other unit.
    pub fn toggle(self) -> (r: SpeedUnit)
        ensures
            r == self.toggled(),
    {
        match self {
            SpeedUnit::Bytes => SpeedUnit::Bits,
            SpeedUnit::Bits => SpeedUnit::Bytes,
        }
    }

    /// The name of the unit.
    pub fn label(self) -> (r: &'static str)
        ensures
            r@ == (match self {
                SpeedUnit::Bytes => "MB/s"@,
                SpeedUnit::Bits => "Mb/s"@,
            }),
    {
        match self {
            SpeedUnit::Bytes => "MB/s",
            SpeedUnit::Bits => "Mb/s",
        }
    }
}

/// Changing the unit twice changes nothing.
pub proof fn law_toggling_twice_is_nothing(u: SpeedUnit)
    ensures
        u.toggled().toggled() == u,
        u.toggled() != u,
{
}

}
