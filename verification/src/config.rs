//! Terminal settings, colour schemes and where the settings are kept.

use std::path::PathBuf;
use vstd::prelude::*;
use crate::text;

verus! {

/// The look of the application window.
#[derive(Debug, Clone, Copy, PartialEq, Eq, Structural)]
pub enum AppTheme {
    Light,
    Dark,
    System,
}

impl Default for AppTheme {
    fn default() -> (r: Self)
        ensures
            r == AppTheme::Light,
    {
        AppTheme::Light
    }
}

impl AppTheme {
    /// Every value, in the order in which they are offered.
    pub const ALL: [Self; 3] = [
        Self::Light,
        Self::Dark,
        Self::System,
    ];

    /// The text shown for the value.
    pub fn label(self) -> (r: &'static str)
        ensures
            r@ == (match self {
                AppTheme::Light => "Light"@,
                AppTheme::Dark => "Dark"@,
                AppTheme::System => "System"@,
            }),
    {
        match self {
            Self::Light => "Light",
            Self::Dark => "Dark",
            Self::System => "System",
        }
    }

    /// The dark-mode preference that the theme sets; `None` leaves it to the
    /// desktop.
    pub fn prefers_dark(self) -> (r: Option<bool>)
        ensures
            r == (match self {
                AppTheme::Light => Some(false),
                AppTheme::Dark => Some(true),
                AppTheme::System => None,
            }),
    {
        match self {
            Self::Light => Some(false),
            Self::Dark => Some(true),
            Self::System => None,
        }
    }

    /// The place of the theme in `ALL`.
    pub fn position(self) -> (r: usize)
        ensures
            r < Self::ALL@.len(),
            Self::ALL@[r as int] == self,
    {
        match self {
            Self::Light => 0,
            Self::Dark => 1,
            Self::System => 2,
        }
    }

    /// The theme at a place of `ALL`.
    pub fn at(index: usize) -> (r: Option<Self>)
        ensures
            r == (if index < Self::ALL@.len() {
                Some(Self::ALL@[index as int])
            } else {
                None
            }),
    {
        if index < 3 {
            Some(Self::ALL[index])
        } else {
            None
        }
    }
}

/// What the Delete key sends.
#[derive(Debug, Clone, Copy, PartialEq, Eq, Structural)]
pub enum DeleteKeyMode {
    Vt220Del,
    Ascii127,
    Backspace,
}

impl Default for DeleteKeyMode {
    fn default() -> (r: Self)
        ensures
            r == DeleteKeyMode::Vt220Del,
    {
        DeleteKeyMode::Vt220Del
    }
}

impl DeleteKeyMode {
    /// Every value, in the order in which they are offered.
    pub const ALL: [Self; 3] = [
        Self::Vt220Del,
        Self::Ascii127,
        Self::Backspace,
    ];

    /// The text shown for the value.
    pub fn label(self) -> (r: &'static str)
        ensures
            r@ == (match self {
                DeleteKeyMode::Vt220Del => "VT220 Del (Esc[3~)"@,
                DeleteKeyMode::Ascii127 => "ASCII 127 (Ctrl+?)"@,
                DeleteKeyMode::Backspace => "Backspace (Ctrl+H)"@,
            }),
    {
        match self {
            Self::Vt220Del => "VT220 Del (Esc[3~)",
            Self::Ascii127 => "ASCII 127 (Ctrl+?)",
            Self::Backspace => "Backspace (Ctrl+H)",
        }
    }
}

/// What the Backspace key sends.
#[derive(Debug, Clone, Copy, PartialEq, Eq, Structural)]
pub enum BackspaceKeyMode {
    Vt220Del,
    Ascii127,
    CtrlH,
}

impl Default for BackspaceKeyMode {
    fn default() -> (r: Self)
        ensures
            r == BackspaceKeyMode::CtrlH,
    {
        BackspaceKeyMode::CtrlH
    }
}

impl BackspaceKeyMode {
    /// Every value, in the order in which they are offered.
    pub const ALL: [Self; 3] = [
        Self::Vt220Del,
        Self::Ascii127,
        Self::CtrlH,
    ];

    /// The text shown for the value.
    pub fn label(self) -> (r: &'static str)
        ensures
            r@ == (match self {
                BackspaceKeyMode::Vt220Del => "VT220 Del (Esc[3~)"@,
                BackspaceKeyMode::Ascii127 => "ASCII 127 (Ctrl+?)"@,
                BackspaceKeyMode::CtrlH => "Backspace (Ctrl+H)"@,
            }),
    {
        match self {
            Self::Vt220Del => "VT220 Del (Esc[3~)",
            Self::Ascii127 => "ASCII 127 (Ctrl+?)",
            Self::CtrlH => "Backspace (Ctrl+H)",
        }
    }
}

/// Red, green and blue of the 16 ANSI colours, the foreground, the background, the
/// cursor and the selection of a scheme.
pub type SchemeColors = (
    [(u8, u8, u8); 16],
    (u8, u8, u8),
    (u8, u8, u8),
    (u8, u8, u8),
    (u8, u8, u8),
);

/// A colour and how opaque it is.
#[derive(Debug, Clone, Copy, PartialEq, Eq, Structural)]
pub struct Color {
    pub red: u8,
    pub green: u8,
    pub blue: u8,
    pub opacity_percent: u8,
}

/// The opaque colour with the given red, green and blue.
pub open spec fn opaque(rgb: (u8, u8, u8)) -> Color {
    Color { red: rgb.0, green: rgb.1, blue: rgb.2, opacity_percent: 100 }
}

fn solid(rgb: (u8, u8, u8)) -> (r: Color)
    ensures
        r == opaque(rgb),
{
    Color { red: rgb.0, green: rgb.1, blue: rgb.2, opacity_percent: 100 }
}

/// The colours of a terminal. What is `None` is inherited from the built-in xterm
/// palette.
#[derive(Debug)]
pub struct ColorPalette {
    pub colors: Vec<Option<Color>>,
    pub foreground: Option<Color>,
    pub background: Option<Color>,
    pub cursor_fg: Option<Color>,
    pub cursor_bg: Option<Color>,
    pub cursor_border: Option<Color>,
    pub selection_fg: Option<Color>,
    pub selection_bg: Option<Color>,
}

impl ColorPalette {
    /// Whether nothing is overridden.
    pub open spec fn inherits_all(self) -> bool {
        &&& forall|i: int| 0 <= i < self.colors@.len() ==> #[trigger] self.colors@[i] is None
        &&& self.foreground is None
        &&& self.background is None
        &&& self.cursor_fg is None
        &&& self.cursor_bg is None
        &&& self.cursor_border is None
        &&& self.selection_fg is None
        &&& self.selection_bg is None
    }
}

/// The colour schemes on offer.
#[derive(Debug, Clone, Copy, PartialEq, Eq, Structural)]
pub enum ColorScheme {
    Default,
    OneDark,
    SolarizedDark,
    SolarizedLight,
    Dracula,
    Monokai,
    Nord,
    GruvboxDark,
    TokyoNight,
    CampbellPowershell,
}

impl Default for ColorScheme {
    fn default() -> (r: Self)
        ensures
            r == ColorScheme::Default,
    {
        ColorScheme::Default
    }
}

impl ColorScheme {
    /// Every value, in the order in which they are offered.
    pub const ALL: [Self; 10] = [
        Self::Default,
        Self::OneDark,
        Self::SolarizedDark,
        Self::SolarizedLight,
        Self::Dracula,
        Self::Monokai,
        Self::Nord,
        Self::GruvboxDark,
        Self::TokyoNight,
        Self::CampbellPowershell,
    ];

    /// The text shown for the value.
    pub fn label(self) -> (r: &'static str)
        ensures
            r@ == (match self {
                ColorScheme::Default => "Default (XTerm)"@,
                ColorScheme::OneDark => "One Dark"@,
                ColorScheme::SolarizedDark => "Solarized Dark"@,
                ColorScheme::SolarizedLight => "Solarized Light"@,
                ColorScheme::Dracula => "Dracula"@,
                ColorScheme::Monokai => "Monokai"@,
                ColorScheme::Nord => "Nord"@,
                ColorScheme::GruvboxDark => "Gruvbox Dark"@,
                ColorScheme::TokyoNight => "Tokyo Night"@,
                ColorScheme::CampbellPowershell => "Campbell PowerShell"@,
            }),
    {
        match self {
            Self::Default => "Default (XTerm)",
            Self::OneDark => "One Dark",
            Self::SolarizedDark => "Solarized Dark",
            Self::SolarizedLight => "Solarized Light",
            Self::Dracula => "Dracula",
            Self::Monokai => "Monokai",
            Self::Nord => "Nord",
            Self::GruvboxDark => "Gruvbox Dark",
            Self::TokyoNight => "Tokyo Night",
            Self::CampbellPowershell => "Campbell PowerShell",
        }
    }

    /// The colour table of the scheme. The default scheme has none.
    pub open spec fn table(self) -> SchemeColors
        recommends
            self != ColorScheme::Default,
    {
        match self {
            ColorScheme::Default => ONE_DARK,
            ColorScheme::OneDark => ONE_DARK,
            ColorScheme::SolarizedDark => SOLARIZED_DARK,
            ColorScheme::SolarizedLight => SOLARIZED_LIGHT,
            ColorScheme::Dracula => DRACULA,
            ColorScheme::Monokai => MONOKAI,
            ColorScheme::Nord => NORD,
            ColorScheme::GruvboxDark => GRUVBOX_DARK,
            ColorScheme::TokyoNight => TOKYO_NIGHT,
            ColorScheme::CampbellPowershell => CAMPBELL_POWERSHELL,
        }
    }

    /// The ANSI colours, foreground, background, cursor and selection of the
    /// scheme as red, green and blue.
    pub fn scheme_colors(self) -> (r: SchemeColors)
        requires
            self != ColorScheme::Default,
        ensures
            r == self.table(),
    {
        match self {
            Self::Default => ONE_DARK,
            Self::OneDark => ONE_DARK,
            Self::SolarizedDark => SOLARIZED_DARK,
            Self::SolarizedLight => SOLARIZED_LIGHT,
            Self::Dracula => DRACULA,
            Self::Monokai => MONOKAI,
            Self::Nord => NORD,
            Self::GruvboxDark => GRUVBOX_DARK,
            Self::TokyoNight => TOKYO_NIGHT,
            Self::CampbellPowershell => CAMPBELL_POWERSHELL,
        }
    }

    /// The palette of the scheme. Only the first 16 colours, the foreground, the
    /// background, the cursor and the selection are overridden; the rest is
    /// inherited, so that programs that use 256 colours still work.
    pub fn build_palette(self) -> (r: ColorPalette)
        ensures
            r.colors@.len() == 256,
            self == ColorScheme::Default ==> r.inherits_all(),
            self != ColorScheme::Default ==> {
                let (ansi, fg, bg, cursor, selection) = self.table();
                &&& forall|i: int| 0 <= i < 16 ==> r.colors@[i] == Some(opaque(#[trigger] ansi@[i]))
                &&& forall|i: int| 16 <= i < 256 ==> #[trigger] r.colors@[i] is None
                &&& r.foreground == Some(opaque(fg))
                &&& r.background == Some(opaque(bg))
                &&& r.cursor_fg == Some(opaque(bg))
                &&& r.cursor_bg == Some(opaque(cursor))
                &&& r.cursor_border == Some(opaque(cursor))
                &&& r.selection_fg == Some(
                    (Color { red: 0, green: 0, blue: 0, opacity_percent: 0 }),
                )
                &&& r.selection_bg == Some(
                    (Color {
                        red: selection.0,
                        green: selection.1,
                        blue: selection.2,
                        opacity_percent: 50,
                    }),
                )
            },
    {
        let mut colors: Vec<Option<Color>> = Vec::new();
        if self == Self::Default {
            while colors.len() < 256
                invariant
                    colors@.len() <= 256,
                    forall|i: int| 0 <= i < colors@.len() ==> #[trigger] colors@[i] is None,
                decreases 256 - colors@.len(),
            {
                colors.push(None);
            }
            return ColorPalette {
                colors,
                foreground: None,
                background: None,
                cursor_fg: None,
                cursor_bg: None,
                cursor_border: None,
                selection_fg: None,
                selection_bg: None,
            };
        }
        let (ansi, fg, bg, cursor, selection) = self.scheme_colors();
        while colors.len() < 256
            invariant
                colors@.len() <= 256,
                ansi@.len() == 16,
                forall|i: int|
                    0 <= i < colors@.len() && i < 16 ==> colors@[i] == Some(opaque(#[trigger] ansi@[i])),
                forall|i: int| 16 <= i < colors@.len() ==> #[trigger] colors@[i] is None,
            decreases 256 - colors@.len(),
        {
            let i = colors.len();
            if i < 16 {
                colors.push(Some(solid(ansi[i])));
            } else {
                colors.push(None);
            }
        }
        ColorPalette {
            colors,
            foreground: Some(solid(fg)),
            background: Some(solid(bg)),
            cursor_fg: Some(solid(bg)),
            cursor_bg: Some(solid(cursor)),
            cursor_border: Some(solid(cursor)),
            selection_fg: Some(Color { red: 0, green: 0, blue: 0, opacity_percent: 0 }),
            selection_bg: Some(
                Color {
                    red: selection.0,
                    green: selection.1,
                    blue: selection.2,
                    opacity_percent: 50,
                },
            ),
        }
    }
}

/// The colours of One Dark: ANSI colours, foreground, background,
/// cursor and selection.
pub const ONE_DARK: SchemeColors = (
    [
        (0x28, 0x2c, 0x34),  // black
        (0xe0, 0x6c, 0x75),  // red
        (0x98, 0xc3, 0x79),  // green
        (0xe5, 0xc0, 0x7b),  // yellow
        (0x61, 0xaf, 0xef),  // blue
        (0xc6, 0x78, 0xdd),  // magenta
        (0x56, 0xb6, 0xc2),  // cyan
        (0xab, 0xb2, 0xbf),  // white
        (0x54, 0x58, 0x62),  // bright black
        (0xe0, 0x6c, 0x75),  // bright red
        (0x98, 0xc3, 0x79),  // bright green
        (0xe5, 0xc0, 0x7b),  // bright yellow
        (0x61, 0xaf, 0xef),  // bright blue
        (0xc6, 0x78, 0xdd),  // bright magenta
        (0x56, 0xb6, 0xc2),  // bright cyan
        (0xff, 0xff, 0xff),  // bright white
    ],
    (0xab, 0xb2, 0xbf),  // fg
    (0x28, 0x2c, 0x34),  // bg
    (0x52, 0x8b, 0xff),  // cursor
    (0x3e, 0x4a, 0x5b),  // selection
);

/// The colours of Solarized Dark: ANSI colours, foreground, background,
/// cursor and selection.
pub const SOLARIZED_DARK: SchemeColors = (
    [
        (0x07, 0x36, 0x42),  // base02
        (0xdc, 0x32, 0x2f),  // red
        (0x85, 0x99, 0x00),  // green
        (0xb5, 0x89, 0x00),  // yellow
        (0x26, 0x8b, 0xd2),  // blue
        (0xd3, 0x36, 0x82),  // magenta
        (0x2a, 0xa1, 0x98),  // cyan
        (0xee, 0xe8, 0xd5),  // base2
        (0x00, 0x2b, 0x36),  // base03
        (0xcb, 0x4b, 0x16),  // orange
        (0x58, 0x6e, 0x75),  // base01
        (0x65, 0x7b, 0x83),  // base00
        (0x83, 0x94, 0x96),  // base0
        (0x6c, 0x71, 0xc4),  // violet
        (0x93, 0xa1, 0xa1),  // base1
        (0xfd, 0xf6, 0xe3),  // base3
    ],
    (0x83, 0x94, 0x96),  // fg (base0)
    (0x00, 0x2b, 0x36),  // bg (base03)
    (0x83, 0x94, 0x96),  // cursor
    (0x07, 0x36, 0x42),  // selection (base02)
);

/// The colours of Solarized Light: ANSI colours, foreground, background,
/// cursor and selection.
pub const SOLARIZED_LIGHT: SchemeColors = (
    [
        (0xee, 0xe8, 0xd5),  // base2
        (0xdc, 0x32, 0x2f),  // red
        (0x85, 0x99, 0x00),  // green
        (0xb5, 0x89, 0x00),  // yellow
        (0x26, 0x8b, 0xd2),  // blue
        (0xd3, 0x36, 0x82),  // magenta
        (0x2a, 0xa1, 0x98),  // cyan
        (0x07, 0x36, 0x42),  // base02
        (0xfd, 0xf6, 0xe3),  // base3
        (0xcb, 0x4b, 0x16),  // orange
        (0x93, 0xa1, 0xa1),  // base1
        (0x83, 0x94, 0x96),  // base0
        (0x65, 0x7b, 0x83),  // base00
        (0x6c, 0x71, 0xc4),  // violet
        (0x58, 0x6e, 0x75),  // base01
        (0x00, 0x2b, 0x36),  // base03
    ],
    (0x65, 0x7b, 0x83),  // fg (base00)
    (0xfd, 0xf6, 0xe3),  // bg (base3)
    (0x65, 0x7b, 0x83),  // cursor
    (0xee, 0xe8, 0xd5),  // selection (base2)
);

/// The colours of Dracula: ANSI colours, foreground, background,
/// cursor and selection.
pub const DRACULA: SchemeColors = (
    [
        (0x21, 0x22, 0x2c),  // black
        (0xff, 0x55, 0x55),  // red
        (0x50, 0xfa, 0x7b),  // green
        (0xf1, 0xfa, 0x8c),  // yellow
        (0xbd, 0x93, 0xf9),  // blue/purple
        (0xff, 0x79, 0xc6),  // magenta/pink
        (0x8b, 0xe9, 0xfd),  // cyan
        (0xf8, 0xf8, 0xf2),  // white
        (0x62, 0x72, 0xa4),  // bright black (comment)
        (0xff, 0x6e, 0x6e),  // bright red
        (0x69, 0xff, 0x94),  // bright green
        (0xff, 0xff, 0xa5),  // bright yellow
        (0xd6, 0xac, 0xff),  // bright blue
        (0xff, 0x92, 0xdf),  // bright magenta
        (0xa4, 0xff, 0xff),  // bright cyan
        (0xff, 0xff, 0xff),  // bright white
    ],
    (0xf8, 0xf8, 0xf2),  // fg
    (0x28, 0x2a, 0x36),  // bg
    (0xf8, 0xf8, 0xf2),  // cursor
    (0x44, 0x47, 0x5a),  // selection
);

/// The colours of Monokai: ANSI colours, foreground, background,
/// cursor and selection.
pub const MONOKAI: SchemeColors = (
    [
        (0x27, 0x28, 0x22),  // black
        (0xf9, 0x26, 0x72),  // red
        (0xa6, 0xe2, 0x2e),  // green
        (0xf4, 0xbf, 0x75),  // yellow
        (0x66, 0xd9, 0xef),  // blue
        (0xae, 0x81, 0xff),  // magenta
        (0xa1, 0xef, 0xe4),  // cyan
        (0xf8, 0xf8, 0xf2),  // white
        (0x75, 0x71, 0x5e),  // bright black
        (0xf9, 0x26, 0x72),  // bright red
        (0xa6, 0xe2, 0x2e),  // bright green
        (0xf4, 0xbf, 0x75),  // bright yellow
        (0x66, 0xd9, 0xef),  // bright blue
        (0xae, 0x81, 0xff),  // bright magenta
        (0xa1, 0xef, 0xe4),  // bright cyan
        (0xf9, 0xf8, 0xf5),  // bright white
    ],
    (0xf8, 0xf8, 0xf2),  // fg
    (0x27, 0x28, 0x22),  // bg
    (0xf8, 0xf8, 0xf0),  // cursor
    (0x49, 0x48, 0x3e),  // selection
);

/// The colours of Nord: ANSI colours, foreground, background,
/// cursor and selection.
pub const NORD: SchemeColors = (
    [
        (0x3b, 0x42, 0x52),  // nord1
        (0xbf, 0x61, 0x6a),  // nord11
        (0xa3, 0xbe, 0x8c),  // nord14
        (0xeb, 0xcb, 0x8b),  // nord13
        (0x81, 0xa1, 0xc1),  // nord9
        (0xb4, 0x8e, 0xad),  // nord15
        (0x88, 0xc0, 0xd0),  // nord8
        (0xe5, 0xe9, 0xf0),  // nord5
        (0x4c, 0x56, 0x6a),  // nord3
        (0xbf, 0x61, 0x6a),  // nord11
        (0xa3, 0xbe, 0x8c),  // nord14
        (0xeb, 0xcb, 0x8b),  // nord13
        (0x81, 0xa1, 0xc1),  // nord9
        (0xb4, 0x8e, 0xad),  // nord15
        (0x8f, 0xbc, 0xbb),  // nord7
        (0xec, 0xef, 0xf4),  // nord6
    ],
    (0xd8, 0xde, 0xe9),  // fg (nord4)
    (0x2e, 0x34, 0x40),  // bg (nord0)
    (0xd8, 0xde, 0xe9),  // cursor
    (0x43, 0x4c, 0x5e),  // selection (nord2)
);

/// The colours of Gruvbox Dark: ANSI colours, foreground, background,
/// cursor and selection.
pub const GRUVBOX_DARK: SchemeColors = (
    [
        (0x28, 0x28, 0x28),  // bg
        (0xcc, 0x24, 0x1d),  // red
        (0x98, 0x97, 0x1a),  // green
        (0xd7, 0x99, 0x21),  // yellow
        (0x45, 0x85, 0x88),  // blue
        (0xb1, 0x62, 0x86),  // purple
        (0x68, 0x9d, 0x6a),  // aqua
        (0xa8, 0x99, 0x84),  // fg4
        (0x92, 0x83, 0x74),  // grey
        (0xfb, 0x49, 0x34),  // bright red
        (0xb8, 0xbb, 0x26),  // bright green
        (0xfa, 0xbd, 0x2f),  // bright yellow
        (0x83, 0xa5, 0x98),  // bright blue
        (0xd3, 0x86, 0x9b),  // bright purple
        (0x8e, 0xc0, 0x7c),  // bright aqua
        (0xeb, 0xdb, 0xb2),  // fg
    ],
    (0xeb, 0xdb, 0xb2),  // fg
    (0x28, 0x28, 0x28),  // bg
    (0xeb, 0xdb, 0xb2),  // cursor
    (0x50, 0x49, 0x45),  // selection (bg2)
);

/// The colours of Tokyo Night: ANSI colours, foreground, background,
/// cursor and selection.
pub const TOKYO_NIGHT: SchemeColors = (
    [
        (0x15, 0x16, 0x1e),  // black
        (0xf7, 0x76, 0x8e),  // red
        (0x9e, 0xce, 0x6a),  // green
        (0xe0, 0xaf, 0x68),  // yellow
        (0x7a, 0xa2, 0xf7),  // blue
        (0xbb, 0x9a, 0xf7),  // magenta
        (0x7d, 0xcf, 0xff),  // cyan
        (0xa9, 0xb1, 0xd6),  // white
        (0x41, 0x48, 0x68),  // bright black
        (0xf7, 0x76, 0x8e),  // bright red
        (0x9e, 0xce, 0x6a),  // bright green
        (0xe0, 0xaf, 0x68),  // bright yellow
        (0x7a, 0xa2, 0xf7),  // bright blue
        (0xbb, 0x9a, 0xf7),  // bright magenta
        (0x7d, 0xcf, 0xff),  // bright cyan
        (0xc0, 0xca, 0xf5),  // bright white
    ],
    (0xa9, 0xb1, 0xd6),  // fg
    (0x1a, 0x1b, 0x26),  // bg
    (0xc0, 0xca, 0xf5),  // cursor
    (0x28, 0x3b, 0x70),  // selection
);

/// The colours of Campbell Powershell: ANSI colours, foreground, background,
/// cursor and selection.
pub const CAMPBELL_POWERSHELL: SchemeColors = (
    [
        (0x0c, 0x0c, 0x0c),  // black
        (0xc5, 0x0f, 0x1f),  // red
        (0x13, 0xa1, 0x0e),  // green
        (0xc1, 0x9c, 0x00),  // yellow
        (0x00, 0x37, 0xda),  // blue
        (0x88, 0x17, 0x98),  // magenta
        (0x3a, 0x96, 0xdd),  // cyan
        (0xcc, 0xcc, 0xcc),  // white
        (0x76, 0x76, 0x76),  // bright black
        (0xe7, 0x48, 0x56),  // bright red
        (0x16, 0xc6, 0x0c),  // bright green
        (0xf9, 0xf1, 0xa5),  // bright yellow
        (0x3b, 0x78, 0xff),  // bright blue
        (0xb4, 0x00, 0x9e),  // bright magenta
        (0x61, 0xd6, 0xd6),  // bright cyan
        (0xf2, 0xf2, 0xf2),  // bright white
    ],
    (0xcc, 0xcc, 0xcc),  // fg
    (0x01, 0x24, 0x56),  // bg (PS blue)
    (0xcc, 0xcc, 0xcc),  // cursor
    (0x13, 0x44, 0x7e),  // selection
);

/// The terminal types on offer.
pub const TERMINAL_TYPES: [&'static str; 10] = [
    "xterm-256color",
    "xterm",
    "linux",
    "vt100",
    "vt220",
    "screen",
    "screen-256color",
    "tmux",
    "tmux-256color",
    "rxvt-unicode-256color",
];

/// The place of the first terminal type on offer that is called `name`; the first
/// place where there is none.
pub fn terminal_type_position(name: &str) -> (r: usize)
    ensures
        r < TERMINAL_TYPES@.len(),
        TERMINAL_TYPES@[r as int]@ == name@ ==> forall|i: int|
            0 <= i < r ==> (#[trigger] TERMINAL_TYPES@[i])@ != name@,
        TERMINAL_TYPES@[r as int]@ != name@ ==> r == 0 && forall|i: int|
            0 <= i < TERMINAL_TYPES@.len() ==> (#[trigger] TERMINAL_TYPES@[i])@ != name@,
{
    let mut i: usize = 0;
    while i < 10
        invariant
            i <= 10,
            TERMINAL_TYPES@.len() == 10,
            forall|j: int| 0 <= j < i ==> (#[trigger] TERMINAL_TYPES@[j])@ != name@,
        decreases 10 - i,
    {
        if text::same_text(TERMINAL_TYPES[i], name) {
            return i;
        }
        i = i + 1;
    }
    0
}

/// The terminal type at a place of the list on offer.
pub fn terminal_type_at(index: usize) -> (r: Option<&'static str>)
    ensures
        r == (if index < TERMINAL_TYPES@.len() {
            Some(TERMINAL_TYPES@[index as int])
        } else {
            None
        }),
{
    if index < 10 {
        Some(TERMINAL_TYPES[index])
    } else {
        None
    }
}

/// Terminal settings of a session. Fields that are `None` fall back to the global
/// settings.
#[derive(Debug, PartialEq, Eq)]
pub struct TerminalSettings {
    pub terminal_type: Option<String>,
    pub initial_cols: Option<u16>,
    pub initial_rows: Option<u16>,
    pub scrollback_lines: Option<usize>,
    pub delete_key: Option<DeleteKeyMode>,
    pub backspace_key: Option<BackspaceKeyMode>,
    pub left_alt_as_meta: Option<bool>,
    pub right_alt_as_meta: Option<bool>,
    pub enable_csi_u: Option<bool>,
    pub enable_kitty_keyboard: Option<bool>,
    pub enable_kitty_graphics: Option<bool>,
    pub mouse_reporting: Option<bool>,
    pub scroll_on_output: Option<bool>,
    pub scroll_on_keypress: Option<bool>,
    pub answerback: Option<String>,
    pub color_scheme: Option<ColorScheme>,
}

/// `TerminalSettings` with its texts as sequences of characters.
#[verifier::ext_equal]
pub struct TerminalSettingsView {
    pub terminal_type: Option<Seq<char>>,
    pub initial_cols: Option<u16>,
    pub initial_rows: Option<u16>,
    pub scrollback_lines: Option<usize>,
    pub delete_key: Option<DeleteKeyMode>,
    pub backspace_key: Option<BackspaceKeyMode>,
    pub left_alt_as_meta: Option<bool>,
    pub right_alt_as_meta: Option<bool>,
    pub enable_csi_u: Option<bool>,
    pub enable_kitty_keyboard: Option<bool>,
    pub enable_kitty_graphics: Option<bool>,
    pub mouse_reporting: Option<bool>,
    pub scroll_on_output: Option<bool>,
    pub scroll_on_keypress: Option<bool>,
    pub answerback: Option<Seq<char>>,
    pub color_scheme: Option<ColorScheme>,
}

impl View for TerminalSettings {
    type V = TerminalSettingsView;

    open spec fn view(&self) -> TerminalSettingsView {
        TerminalSettingsView {
            terminal_type: text_view(self.terminal_type),
            initial_cols: self.initial_cols,
            initial_rows: self.initial_rows,
            scrollback_lines: self.scrollback_lines,
            delete_key: self.delete_key,
            backspace_key: self.backspace_key,
            left_alt_as_meta: self.left_alt_as_meta,
            right_alt_as_meta: self.right_alt_as_meta,
            enable_csi_u: self.enable_csi_u,
            enable_kitty_keyboard: self.enable_kitty_keyboard,
            enable_kitty_graphics: self.enable_kitty_graphics,
            mouse_reporting: self.mouse_reporting,
            scroll_on_output: self.scroll_on_output,
            scroll_on_keypress: self.scroll_on_keypress,
            answerback: text_view(self.answerback),
            color_scheme: self.color_scheme,
        }
    }
}

/// An optional text as an optional sequence of characters.
pub open spec fn text_view(t: Option<String>) -> Option<Seq<char>> {
    match t {
        Some(s) => Some(s@),
        None => None,
    }
}

/// Settings in which nothing is set.
pub open spec fn unset_settings() -> TerminalSettingsView {
    TerminalSettingsView {
        terminal_type: None,
        initial_cols: None,
        initial_rows: None,
        scrollback_lines: None,
        delete_key: None,
        backspace_key: None,
        left_alt_as_meta: None,
        right_alt_as_meta: None,
        enable_csi_u: None,
        enable_kitty_keyboard: None,
        enable_kitty_graphics: None,
        mouse_reporting: None,
        scroll_on_output: None,
        scroll_on_keypress: None,
        answerback: None,
        color_scheme: None,
    }
}

/// `first` where it is set, else `second`.
pub open spec fn first_set<T>(first: Option<T>, second: Option<T>) -> Option<T> {
    if first is Some {
        first
    } else {
        second
    }
}

/// `session` where it is set, else `defaults`, field by field.
pub open spec fn merged_settings(
    session: TerminalSettingsView,
    defaults: TerminalSettingsView,
) -> TerminalSettingsView {
    TerminalSettingsView {
        terminal_type: first_set(session.terminal_type, defaults.terminal_type),
        initial_cols: first_set(session.initial_cols, defaults.initial_cols),
        initial_rows: first_set(session.initial_rows, defaults.initial_rows),
        scrollback_lines: first_set(session.scrollback_lines, defaults.scrollback_lines),
        delete_key: first_set(session.delete_key, defaults.delete_key),
        backspace_key: first_set(session.backspace_key, defaults.backspace_key),
        left_alt_as_meta: first_set(session.left_alt_as_meta, defaults.left_alt_as_meta),
        right_alt_as_meta: first_set(session.right_alt_as_meta, defaults.right_alt_as_meta),
        enable_csi_u: first_set(session.enable_csi_u, defaults.enable_csi_u),
        enable_kitty_keyboard: first_set(session.enable_kitty_keyboard, defaults.enable_kitty_keyboard),
        enable_kitty_graphics: first_set(session.enable_kitty_graphics, defaults.enable_kitty_graphics),
        mouse_reporting: first_set(session.mouse_reporting, defaults.mouse_reporting),
        scroll_on_output: first_set(session.scroll_on_output, defaults.scroll_on_output),
        scroll_on_keypress: first_set(session.scroll_on_keypress, defaults.scroll_on_keypress),
        answerback: first_set(session.answerback, defaults.answerback),
        color_scheme: first_set(session.color_scheme, defaults.color_scheme),
    }
}

/// The value of a setting, or `default` where it is not set.
pub open spec fn set_or<T>(value: Option<T>, default: T) -> T {
    match value {
        Some(v) => v,
        None => default,
    }
}

/// `settings` with the built-in value for everything that is not set.
pub open spec fn resolved_settings(settings: TerminalSettingsView) -> ResolvedSettingsView {
    ResolvedSettingsView {
        terminal_type: set_or(settings.terminal_type, "xterm-256color"@),
        initial_cols: set_or(settings.initial_cols, 120),
        initial_rows: set_or(settings.initial_rows, 36),
        scrollback_lines: set_or(settings.scrollback_lines, 6_000),
        delete_key: set_or(settings.delete_key, DeleteKeyMode::Vt220Del),
        backspace_key: set_or(settings.backspace_key, BackspaceKeyMode::CtrlH),
        left_alt_as_meta: set_or(settings.left_alt_as_meta, true),
        right_alt_as_meta: set_or(settings.right_alt_as_meta, true),
        enable_csi_u: set_or(settings.enable_csi_u, false),
        enable_kitty_keyboard: set_or(settings.enable_kitty_keyboard, false),
        enable_kitty_graphics: set_or(settings.enable_kitty_graphics, false),
        mouse_reporting: set_or(settings.mouse_reporting, true),
        scroll_on_output: set_or(settings.scroll_on_output, true),
        scroll_on_keypress: set_or(settings.scroll_on_keypress, false),
        answerback: set_or(settings.answerback, "rsHell"@),
        color_scheme: set_or(settings.color_scheme, ColorScheme::Default),
    }
}

impl Default for TerminalSettings {
    fn default() -> (r: Self)
        ensures
            r@ == unset_settings(),
    {
        TerminalSettings {
            terminal_type: None,
            initial_cols: None,
            initial_rows: None,
            scrollback_lines: None,
            delete_key: None,
            backspace_key: None,
            left_alt_as_meta: None,
            right_alt_as_meta: None,
            enable_csi_u: None,
            enable_kitty_keyboard: None,
            enable_kitty_graphics: None,
            mouse_reporting: None,
            scroll_on_output: None,
            scroll_on_keypress: None,
            answerback: None,
            color_scheme: None,
        }
    }
}

impl Clone for TerminalSettings {
    fn clone(&self) -> (r: Self)
        ensures
            r == *self,
    {
        TerminalSettings {
            terminal_type: clone_text(&self.terminal_type),
            initial_cols: self.initial_cols,
            initial_rows: self.initial_rows,
            scrollback_lines: self.scrollback_lines,
            delete_key: self.delete_key,
            backspace_key: self.backspace_key,
            left_alt_as_meta: self.left_alt_as_meta,
            right_alt_as_meta: self.right_alt_as_meta,
            enable_csi_u: self.enable_csi_u,
            enable_kitty_keyboard: self.enable_kitty_keyboard,
            enable_kitty_graphics: self.enable_kitty_graphics,
            mouse_reporting: self.mouse_reporting,
            scroll_on_output: self.scroll_on_output,
            scroll_on_keypress: self.scroll_on_keypress,
            answerback: clone_text(&self.answerback),
            color_scheme: self.color_scheme,
        }
    }
}

fn clone_text(t: &Option<String>) -> (r: Option<String>)
    ensures
        r == *t,
{
    match t {
        Some(s) => Some(s.clone()),
        None => None,
    }
}

fn text_or(t: &Option<String>, default: &str) -> (r: String)
    ensures
        r@ == set_or(text_view(*t), default@),
{
    match t {
        Some(s) => s.clone(),
        None => default.to_owned(),
    }
}

fn text_or_else(first: &Option<String>, second: &Option<String>) -> (r: Option<String>)
    ensures
        r == first_set(*first, *second),
{
    match first {
        Some(s) => Some(s.clone()),
        None => clone_text(second),
    }
}

fn or_else<T: Copy>(first: Option<T>, second: Option<T>) -> (r: Option<T>)
    ensures
        r == first_set(first, second),
{
    match first {
        Some(v) => Some(v),
        None => second,
    }
}

impl TerminalSettings {
    /// Whether nothing is set.
    pub fn is_empty(&self) -> (r: bool)
        ensures
            r == (self@ == unset_settings()),
    {
        self.terminal_type.is_none()
            && self.initial_cols.is_none()
            && self.initial_rows.is_none()
            && self.scrollback_lines.is_none()
            && self.delete_key.is_none()
            && self.backspace_key.is_none()
            && self.left_alt_as_meta.is_none()
            && self.right_alt_as_meta.is_none()
            && self.enable_csi_u.is_none()
            && self.enable_kitty_keyboard.is_none()
            && self.enable_kitty_graphics.is_none()
            && self.mouse_reporting.is_none()
            && self.scroll_on_output.is_none()
            && self.scroll_on_keypress.is_none()
            && self.answerback.is_none()
            && self.color_scheme.is_none()
    }

    /// These settings over a set of defaults: values that are set here take
    /// precedence, anything unset falls through to `defaults`.
    pub fn merge_over(&self, defaults: &Self) -> (r: Self)
        ensures
            r@ == merged_settings(self@, defaults@),
    {
        TerminalSettings {
            terminal_type: text_or_else(&self.terminal_type, &defaults.terminal_type),
            initial_cols: or_else(self.initial_cols, defaults.initial_cols),
            initial_rows: or_else(self.initial_rows, defaults.initial_rows),
            scrollback_lines: or_else(self.scrollback_lines, defaults.scrollback_lines),
            delete_key: or_else(self.delete_key, defaults.delete_key),
            backspace_key: or_else(self.backspace_key, defaults.backspace_key),
            left_alt_as_meta: or_else(self.left_alt_as_meta, defaults.left_alt_as_meta),
            right_alt_as_meta: or_else(self.right_alt_as_meta, defaults.right_alt_as_meta),
            enable_csi_u: or_else(self.enable_csi_u, defaults.enable_csi_u),
            enable_kitty_keyboard: or_else(self.enable_kitty_keyboard, defaults.enable_kitty_keyboard),
            enable_kitty_graphics: or_else(self.enable_kitty_graphics, defaults.enable_kitty_graphics),
            mouse_reporting: or_else(self.mouse_reporting, defaults.mouse_reporting),
            scroll_on_output: or_else(self.scroll_on_output, defaults.scroll_on_output),
            scroll_on_keypress: or_else(self.scroll_on_keypress, defaults.scroll_on_keypress),
            answerback: text_or_else(&self.answerback, &defaults.answerback),
            color_scheme: or_else(self.color_scheme, defaults.color_scheme),
        }
    }

    /// Concrete values for all settings, with the built-in value for anything
    /// that is not set.
    pub fn resolve(&self) -> (r: ResolvedTerminalSettings)
        ensures
            r@ == resolved_settings(self@),
    {
        ResolvedTerminalSettings {
            terminal_type: text_or(&self.terminal_type, "xterm-256color"),
            initial_cols: self.initial_cols.unwrap_or(120),
            initial_rows: self.initial_rows.unwrap_or(36),
            scrollback_lines: self.scrollback_lines.unwrap_or(6_000),
            delete_key: self.delete_key.unwrap_or(DeleteKeyMode::Vt220Del),
            backspace_key: self.backspace_key.unwrap_or(BackspaceKeyMode::CtrlH),
            left_alt_as_meta: self.left_alt_as_meta.unwrap_or(true),
            right_alt_as_meta: self.right_alt_as_meta.unwrap_or(true),
            enable_csi_u: self.enable_csi_u.unwrap_or(false),
            enable_kitty_keyboard: self.enable_kitty_keyboard.unwrap_or(false),
            enable_kitty_graphics: self.enable_kitty_graphics.unwrap_or(false),
            mouse_reporting: self.mouse_reporting.unwrap_or(true),
            scroll_on_output: self.scroll_on_output.unwrap_or(true),
            scroll_on_keypress: self.scroll_on_keypress.unwrap_or(false),
            answerback: text_or(&self.answerback, "rsHell"),
            color_scheme: self.color_scheme.unwrap_or(ColorScheme::Default),
        }
    }

    /// Sets the one field that `change` names.
    pub fn apply(&mut self, change: TerminalSettingChange)
        ensures
            final(self)@ == changed_settings(old(self)@, change),
    {
        match change {
            TerminalSettingChange::TerminalType(v) => self.terminal_type = Some(v),
            TerminalSettingChange::Cols(v) => self.initial_cols = Some(v),
            TerminalSettingChange::Rows(v) => self.initial_rows = Some(v),
            TerminalSettingChange::ScrollbackLines(v) => self.scrollback_lines = Some(v),
            TerminalSettingChange::DeleteKey(v) => self.delete_key = Some(v),
            TerminalSettingChange::BackspaceKey(v) => self.backspace_key = Some(v),
            TerminalSettingChange::LeftAltMeta(v) => self.left_alt_as_meta = Some(v),
            TerminalSettingChange::RightAltMeta(v) => self.right_alt_as_meta = Some(v),
            TerminalSettingChange::CsiU(v) => self.enable_csi_u = Some(v),
            TerminalSettingChange::KittyKeyboard(v) => self.enable_kitty_keyboard = Some(v),
            TerminalSettingChange::KittyGraphics(v) => self.enable_kitty_graphics = Some(v),
            TerminalSettingChange::MouseReporting(v) => self.mouse_reporting = Some(v),
            TerminalSettingChange::ScrollOnOutput(v) => self.scroll_on_output = Some(v),
            TerminalSettingChange::ScrollOnKeypress(v) => self.scroll_on_keypress = Some(v),
            TerminalSettingChange::Answerback(v) => self.answerback = Some(v),
        }
    }
}

/// Terminal settings in which everything has a value.
#[derive(Debug, PartialEq)]
pub struct ResolvedTerminalSettings {
    pub terminal_type: String,
    pub initial_cols: u16,
    pub initial_rows: u16,
    pub scrollback_lines: usize,
    pub delete_key: DeleteKeyMode,
    pub backspace_key: BackspaceKeyMode,
    pub left_alt_as_meta: bool,
    pub right_alt_as_meta: bool,
    pub enable_csi_u: bool,
    pub enable_kitty_keyboard: bool,
    pub enable_kitty_graphics: bool,
    pub mouse_reporting: bool,
    pub scroll_on_output: bool,
    pub scroll_on_keypress: bool,
    pub answerback: String,
    pub color_scheme: ColorScheme,
}

/// `ResolvedTerminalSettings` with its texts as sequences of characters.
#[verifier::ext_equal]
pub struct ResolvedSettingsView {
    pub terminal_type: Seq<char>,
    pub initial_cols: u16,
    pub initial_rows: u16,
    pub scrollback_lines: usize,
    pub delete_key: DeleteKeyMode,
    pub backspace_key: BackspaceKeyMode,
    pub left_alt_as_meta: bool,
    pub right_alt_as_meta: bool,
    pub enable_csi_u: bool,
    pub enable_kitty_keyboard: bool,
    pub enable_kitty_graphics: bool,
    pub mouse_reporting: bool,
    pub scroll_on_output: bool,
    pub scroll_on_keypress: bool,
    pub answerback: Seq<char>,
    pub color_scheme: ColorScheme,
}

impl View for ResolvedTerminalSettings {
    type V = ResolvedSettingsView;

    open spec fn view(&self) -> ResolvedSettingsView {
        ResolvedSettingsView {
            terminal_type: self.terminal_type@,
            initial_cols: self.initial_cols,
            initial_rows: self.initial_rows,
            scrollback_lines: self.scrollback_lines,
            delete_key: self.delete_key,
            backspace_key: self.backspace_key,
            left_alt_as_meta: self.left_alt_as_meta,
            right_alt_as_meta: self.right_alt_as_meta,
            enable_csi_u: self.enable_csi_u,
            enable_kitty_keyboard: self.enable_kitty_keyboard,
            enable_kitty_graphics: self.enable_kitty_graphics,
            mouse_reporting: self.mouse_reporting,
            scroll_on_output: self.scroll_on_output,
            scroll_on_keypress: self.scroll_on_keypress,
            answerback: self.answerback@,
            color_scheme: self.color_scheme,
        }
    }
}

impl Clone for ResolvedTerminalSettings {
    fn clone(&self) -> (r: Self)
        ensures
            r == *self,
    {
        ResolvedTerminalSettings {
            terminal_type: self.terminal_type.clone(),
            initial_cols: self.initial_cols,
            initial_rows: self.initial_rows,
            scrollback_lines: self.scrollback_lines,
            delete_key: self.delete_key,
            backspace_key: self.backspace_key,
            left_alt_as_meta: self.left_alt_as_meta,
            right_alt_as_meta: self.right_alt_as_meta,
            enable_csi_u: self.enable_csi_u,
            enable_kitty_keyboard: self.enable_kitty_keyboard,
            enable_kitty_graphics: self.enable_kitty_graphics,
            mouse_reporting: self.mouse_reporting,
            scroll_on_output: self.scroll_on_output,
            scroll_on_keypress: self.scroll_on_keypress,
            answerback: self.answerback.clone(),
            color_scheme: self.color_scheme,
        }
    }
}

/// A change of one terminal setting.
#[derive(Debug)]
pub enum TerminalSettingChange {
    TerminalType(String),
    Cols(u16),
    Rows(u16),
    ScrollbackLines(usize),
    DeleteKey(DeleteKeyMode),
    BackspaceKey(BackspaceKeyMode),
    LeftAltMeta(bool),
    RightAltMeta(bool),
    CsiU(bool),
    KittyKeyboard(bool),
    KittyGraphics(bool),
    MouseReporting(bool),
    ScrollOnOutput(bool),
    ScrollOnKeypress(bool),
    Answerback(String),
}

/// `settings` with the one field set that `change` names.
pub open spec fn changed_settings(
    settings: TerminalSettingsView,
    change: TerminalSettingChange,
) -> TerminalSettingsView {
    match change {
        TerminalSettingChange::TerminalType(v) => TerminalSettingsView {
            terminal_type: Some(v@),
            ..settings
        },
        TerminalSettingChange::Cols(v) => TerminalSettingsView {
            initial_cols: Some(v),
            ..settings
        },
        TerminalSettingChange::Rows(v) => TerminalSettingsView {
            initial_rows: Some(v),
            ..settings
        },
        TerminalSettingChange::ScrollbackLines(v) => TerminalSettingsView {
            scrollback_lines: Some(v),
            ..settings
        },
        TerminalSettingChange::DeleteKey(v) => TerminalSettingsView {
            delete_key: Some(v),
            ..settings
        },
        TerminalSettingChange::BackspaceKey(v) => TerminalSettingsView {
            backspace_key: Some(v),
            ..settings
        },
        TerminalSettingChange::LeftAltMeta(v) => TerminalSettingsView {
            left_alt_as_meta: Some(v),
            ..settings
        },
        TerminalSettingChange::RightAltMeta(v) => TerminalSettingsView {
            right_alt_as_meta: Some(v),
            ..settings
        },
        TerminalSettingChange::CsiU(v) => TerminalSettingsView {
            enable_csi_u: Some(v),
            ..settings
        },
        TerminalSettingChange::KittyKeyboard(v) => TerminalSettingsView {
            enable_kitty_keyboard: Some(v),
            ..settings
        },
        TerminalSettingChange::KittyGraphics(v) => TerminalSettingsView {
            enable_kitty_graphics: Some(v),
            ..settings
        },
        TerminalSettingChange::MouseReporting(v) => TerminalSettingsView {
            mouse_reporting: Some(v),
            ..settings
        },
        TerminalSettingChange::ScrollOnOutput(v) => TerminalSettingsView {
            scroll_on_output: Some(v),
            ..settings
        },
        TerminalSettingChange::ScrollOnKeypress(v) => TerminalSettingsView {
            scroll_on_keypress: Some(v),
            ..settings
        },
        TerminalSettingChange::Answerback(v) => TerminalSettingsView {
            answerback: Some(v@),
            ..settings
        },
    }
}

/// The settings of the application as a whole.
#[derive(Debug)]
pub struct GlobalConfig {
    pub theme: AppTheme,
    pub terminal: TerminalSettings,
}

/// `GlobalConfig` with its texts as sequences of characters.
#[verifier::ext_equal]
pub struct GlobalConfigView {
    pub theme: AppTheme,
    pub terminal: TerminalSettingsView,
}

impl View for GlobalConfig {
    type V = GlobalConfigView;

    open spec fn view(&self) -> GlobalConfigView {
        GlobalConfigView { theme: self.theme, terminal: self.terminal@ }
    }
}

impl Default for GlobalConfig {
    fn default() -> (r: Self)
        ensures
            r@ == (GlobalConfigView { theme: AppTheme::Light, terminal: unset_settings() }),
    {
        GlobalConfig { theme: AppTheme::Light, terminal: TerminalSettings::default() }
    }
}

impl Clone for GlobalConfig {
    fn clone(&self) -> (r: Self)
        ensures
            r == *self,
    {
        GlobalConfig { theme: self.theme, terminal: self.terminal.clone() }
    }
}

/// `std::path::PathBuf`, carried through unread.
#[verifier::external_type_specification]
#[verifier::external_body]
pub struct ExPathBuf(std::path::PathBuf);

/// The directory below which settings and connections are kept: that of the local
/// configuration, else of the configuration, else of the local data, else the current
/// one, as far as they are known.
pub fn base_directory(
    local_config: Option<PathBuf>,
    config: Option<PathBuf>,
    local_data: Option<PathBuf>,
    current: Option<PathBuf>,
) -> (r: Option<PathBuf>)
    ensures
        r == (if local_config is Some {
            local_config
        } else if config is Some {
            config
        } else if local_data is Some {
            local_data
        } else {
            current
        }),
{
    if local_config.is_some() {
        local_config
    } else if config.is_some() {
        config
    } else if local_data.is_some() {
        local_data
    } else {
        current
    }
}

/// The file that holds the global settings.
#[derive(Debug)]
pub struct SettingsRepository {
    path: PathBuf,
}

impl SettingsRepository {
    /// The path of the file.
    pub closed spec fn location(self) -> PathBuf {
        self.path
    }

    pub fn new(path: PathBuf) -> (r: Self)
        ensures
            r.location() == path,
    {
        Self { path }
    }

    pub fn path(&self) -> (r: &PathBuf)
        ensures
            *r == self.location(),
    {
        &self.path
    }
}

/// Merging over unset settings, or merging unset settings over others, changes
/// nothing.
pub proof fn merge_unset_is_identity(settings: TerminalSettingsView)
    ensures
        merged_settings(settings, unset_settings()) == settings,
        merged_settings(unset_settings(), settings) == settings,
{
}

/// Layers of settings can be merged in any grouping.
pub proof fn merge_is_associative(
    a: TerminalSettingsView,
    b: TerminalSettingsView,
    c: TerminalSettingsView,
)
    ensures
        merged_settings(a, merged_settings(b, c)) == merged_settings(merged_settings(a, b), c),
{
}

/// Changing a setting and then falling back to defaults gives what changing it
/// afterwards gives: defaults never undo a change.
#[verifier::rlimit(40)]
pub proof fn change_survives_merge(
    session: TerminalSettingsView,
    defaults: TerminalSettingsView,
    change: TerminalSettingChange,
)
    ensures
        merged_settings(changed_settings(session, change), defaults) == changed_settings(
            merged_settings(session, defaults),
            change,
        ),
{
    match change {
        TerminalSettingChange::TerminalType(_) => {},
        TerminalSettingChange::Cols(_) => {},
        TerminalSettingChange::Rows(_) => {},
        TerminalSettingChange::ScrollbackLines(_) => {},
        TerminalSettingChange::DeleteKey(_) => {},
        TerminalSettingChange::BackspaceKey(_) => {},
        TerminalSettingChange::LeftAltMeta(_) => {},
        TerminalSettingChange::RightAltMeta(_) => {},
        TerminalSettingChange::CsiU(_) => {},
        TerminalSettingChange::KittyKeyboard(_) => {},
        TerminalSettingChange::KittyGraphics(_) => {},
        TerminalSettingChange::MouseReporting(_) => {},
        TerminalSettingChange::ScrollOnOutput(_) => {},
        TerminalSettingChange::ScrollOnKeypress(_) => {},
        TerminalSettingChange::Answerback(_) => {},
    }
}

/// Whatever is set is the resolved value, whatever else is set or not.
pub proof fn set_values_are_resolved(settings: &TerminalSettings, r: ResolvedTerminalSettings)
    requires
        call_ensures(TerminalSettings::resolve, (settings,), r),
    ensures
        settings.terminal_type matches Some(v) ==> r.terminal_type@ == v@,
        settings.initial_cols matches Some(v) ==> r.initial_cols == v,
        settings.initial_rows matches Some(v) ==> r.initial_rows == v,
        settings.scrollback_lines matches Some(v) ==> r.scrollback_lines == v,
        settings.delete_key matches Some(v) ==> r.delete_key == v,
        settings.backspace_key matches Some(v) ==> r.backspace_key == v,
        settings.left_alt_as_meta matches Some(v) ==> r.left_alt_as_meta == v,
        settings.right_alt_as_meta matches Some(v) ==> r.right_alt_as_meta == v,
        settings.enable_csi_u matches Some(v) ==> r.enable_csi_u == v,
        settings.enable_kitty_keyboard matches Some(v) ==> r.enable_kitty_keyboard == v,
        settings.enable_kitty_graphics matches Some(v) ==> r.enable_kitty_graphics == v,
        settings.mouse_reporting matches Some(v) ==> r.mouse_reporting == v,
        settings.scroll_on_output matches Some(v) ==> r.scroll_on_output == v,
        settings.scroll_on_keypress matches Some(v) ==> r.scroll_on_keypress == v,
        settings.answerback matches Some(v) ==> r.answerback@ == v@,
        settings.color_scheme matches Some(v) ==> r.color_scheme == v,
{
}

/// Whatever is not set is resolved to its built-in value, whatever else is set.
pub proof fn unset_values_are_built_in(settings: &TerminalSettings, r: ResolvedTerminalSettings)
    requires
        call_ensures(TerminalSettings::resolve, (settings,), r),
    ensures
        settings.terminal_type is None ==> r.terminal_type@ == "xterm-256color"@,
        settings.initial_cols is None ==> r.initial_cols == 120,
        settings.initial_rows is None ==> r.initial_rows == 36,
        settings.scrollback_lines is None ==> r.scrollback_lines == 6_000,
        settings.delete_key is None ==> r.delete_key == DeleteKeyMode::Vt220Del,
        settings.backspace_key is None ==> r.backspace_key == BackspaceKeyMode::CtrlH,
        settings.left_alt_as_meta is None ==> r.left_alt_as_meta == true,
        settings.right_alt_as_meta is None ==> r.right_alt_as_meta == true,
        settings.enable_csi_u is None ==> r.enable_csi_u == false,
        settings.enable_kitty_keyboard is None ==> r.enable_kitty_keyboard == false,
        settings.enable_kitty_graphics is None ==> r.enable_kitty_graphics == false,
        settings.mouse_reporting is None ==> r.mouse_reporting == true,
        settings.scroll_on_output is None ==> r.scroll_on_output == true,
        settings.scroll_on_keypress is None ==> r.scroll_on_keypress == false,
        settings.answerback is None ==> r.answerback@ == "rsHell"@,
        settings.color_scheme is None ==> r.color_scheme == ColorScheme::Default,
{
}

/// In merged settings every value that the session sets is that of the session.
pub proof fn session_values_win(
    session: &TerminalSettings,
    defaults: &TerminalSettings,
    r: TerminalSettings,
)
    requires
        call_ensures(TerminalSettings::merge_over, (session, defaults), r),
    ensures
        session.terminal_type matches Some(v) ==> r.terminal_type is Some && r.terminal_type->0@ == v@,
        session.initial_cols is Some ==> r.initial_cols == session.initial_cols,
        session.initial_rows is Some ==> r.initial_rows == session.initial_rows,
        session.scrollback_lines is Some ==> r.scrollback_lines == session.scrollback_lines,
        session.delete_key is Some ==> r.delete_key == session.delete_key,
        session.backspace_key is Some ==> r.backspace_key == session.backspace_key,
        session.left_alt_as_meta is Some ==> r.left_alt_as_meta == session.left_alt_as_meta,
        session.right_alt_as_meta is Some ==> r.right_alt_as_meta == session.right_alt_as_meta,
        session.enable_csi_u is Some ==> r.enable_csi_u == session.enable_csi_u,
        session.enable_kitty_keyboard is Some ==> r.enable_kitty_keyboard == session.enable_kitty_keyboard,
        session.enable_kitty_graphics is Some ==> r.enable_kitty_graphics == session.enable_kitty_graphics,
        session.mouse_reporting is Some ==> r.mouse_reporting == session.mouse_reporting,
        session.scroll_on_output is Some ==> r.scroll_on_output == session.scroll_on_output,
        session.scroll_on_keypress is Some ==> r.scroll_on_keypress == session.scroll_on_keypress,
        session.answerback matches Some(v) ==> r.answerback is Some && r.answerback->0@ == v@,
        session.color_scheme is Some ==> r.color_scheme == session.color_scheme,
{
}

/// In merged settings every value that the session does not set is that of the defaults.
pub proof fn defaults_fill_in(
    session: &TerminalSettings,
    defaults: &TerminalSettings,
    r: TerminalSettings,
)
    requires
        call_ensures(TerminalSettings::merge_over, (session, defaults), r),
    ensures
        session.terminal_type is None ==> text_view(r.terminal_type) == text_view(defaults.terminal_type),
        session.initial_cols is None ==> r.initial_cols == defaults.initial_cols,
        session.initial_rows is None ==> r.initial_rows == defaults.initial_rows,
        session.scrollback_lines is None ==> r.scrollback_lines == defaults.scrollback_lines,
        session.delete_key is None ==> r.delete_key == defaults.delete_key,
        session.backspace_key is None ==> r.backspace_key == defaults.backspace_key,
        session.left_alt_as_meta is None ==> r.left_alt_as_meta == defaults.left_alt_as_meta,
        session.right_alt_as_meta is None ==> r.right_alt_as_meta == defaults.right_alt_as_meta,
        session.enable_csi_u is None ==> r.enable_csi_u == defaults.enable_csi_u,
        session.enable_kitty_keyboard is None ==> r.enable_kitty_keyboard == defaults.enable_kitty_keyboard,
        session.enable_kitty_graphics is None ==> r.enable_kitty_graphics == defaults.enable_kitty_graphics,
        session.mouse_reporting is None ==> r.mouse_reporting == defaults.mouse_reporting,
        session.scroll_on_output is None ==> r.scroll_on_output == defaults.scroll_on_output,
        session.scroll_on_keypress is None ==> r.scroll_on_keypress == defaults.scroll_on_keypress,
        session.answerback is None ==> text_view(r.answerback) == text_view(defaults.answerback),
        session.color_scheme is None ==> r.color_scheme == defaults.color_scheme,
{
}

/// Settings are empty if and only if none of their values is set.
pub proof fn empty_means_nothing_set(settings: &TerminalSettings, r: bool)
    requires
        call_ensures(TerminalSettings::is_empty, (settings,), r),
    ensures
        r <==> {
            &&& settings.terminal_type is None
            &&& settings.initial_cols is None
            &&& settings.initial_rows is None
            &&& settings.scrollback_lines is None
            &&& settings.delete_key is None
            &&& settings.backspace_key is None
            &&& settings.left_alt_as_meta is None
            &&& settings.right_alt_as_meta is None
            &&& settings.enable_csi_u is None
            &&& settings.enable_kitty_keyboard is None
            &&& settings.enable_kitty_graphics is None
            &&& settings.mouse_reporting is None
            &&& settings.scroll_on_output is None
            &&& settings.scroll_on_keypress is None
            &&& settings.answerback is None
            &&& settings.color_scheme is None
        },
{
}

/// New settings set nothing.
pub proof fn new_settings_set_nothing(r: TerminalSettings)
    requires
        call_ensures(TerminalSettings::default, (), r),
    ensures
        r.terminal_type is None,
        r.initial_cols is None,
        r.initial_rows is None,
        r.scrollback_lines is None,
        r.delete_key is None,
        r.backspace_key is None,
        r.left_alt_as_meta is None,
        r.right_alt_as_meta is None,
        r.enable_csi_u is None,
        r.enable_kitty_keyboard is None,
        r.enable_kitty_graphics is None,
        r.mouse_reporting is None,
        r.scroll_on_output is None,
        r.scroll_on_keypress is None,
        r.answerback is None,
        r.color_scheme is None,
{
}

/// A change sets the value that it names.
pub proof fn a_change_sets_its_value(settings: &mut TerminalSettings, change: TerminalSettingChange)
    requires
        call_ensures(TerminalSettings::apply, (settings, change), ()),
    ensures
        match change {
            TerminalSettingChange::TerminalType(v) => final(settings).terminal_type is Some && final(settings).terminal_type->0@ == v@,
            TerminalSettingChange::Cols(v) => final(settings).initial_cols == Some(v),
            TerminalSettingChange::Rows(v) => final(settings).initial_rows == Some(v),
            TerminalSettingChange::ScrollbackLines(v) => final(settings).scrollback_lines == Some(v),
            TerminalSettingChange::DeleteKey(v) => final(settings).delete_key == Some(v),
            TerminalSettingChange::BackspaceKey(v) => final(settings).backspace_key == Some(v),
            TerminalSettingChange::LeftAltMeta(v) => final(settings).left_alt_as_meta == Some(v),
            TerminalSettingChange::RightAltMeta(v) => final(settings).right_alt_as_meta == Some(v),
            TerminalSettingChange::CsiU(v) => final(settings).enable_csi_u == Some(v),
            TerminalSettingChange::KittyKeyboard(v) => final(settings).enable_kitty_keyboard == Some(v),
            TerminalSettingChange::KittyGraphics(v) => final(settings).enable_kitty_graphics == Some(v),
            TerminalSettingChange::MouseReporting(v) => final(settings).mouse_reporting == Some(v),
            TerminalSettingChange::ScrollOnOutput(v) => final(settings).scroll_on_output == Some(v),
            TerminalSettingChange::ScrollOnKeypress(v) => final(settings).scroll_on_keypress == Some(v),
            TerminalSettingChange::Answerback(v) => final(settings).answerback is Some && final(settings).answerback->0@ == v@,
        },
{
}

/// A change leaves everything alone but the value that it names.
pub proof fn a_change_leaves_the_rest(settings: &mut TerminalSettings, change: TerminalSettingChange)
    requires
        call_ensures(TerminalSettings::apply, (settings, change), ()),
    ensures
        !(change is TerminalType) ==> text_view(final(settings).terminal_type) == text_view(old(settings).terminal_type),
        !(change is Cols) ==> final(settings).initial_cols == old(settings).initial_cols,
        !(change is Rows) ==> final(settings).initial_rows == old(settings).initial_rows,
        !(change is ScrollbackLines) ==> final(settings).scrollback_lines == old(settings).scrollback_lines,
        !(change is DeleteKey) ==> final(settings).delete_key == old(settings).delete_key,
        !(change is BackspaceKey) ==> final(settings).backspace_key == old(settings).backspace_key,
        !(change is LeftAltMeta) ==> final(settings).left_alt_as_meta == old(settings).left_alt_as_meta,
        !(change is RightAltMeta) ==> final(settings).right_alt_as_meta == old(settings).right_alt_as_meta,
        !(change is CsiU) ==> final(settings).enable_csi_u == old(settings).enable_csi_u,
        !(change is KittyKeyboard) ==> final(settings).enable_kitty_keyboard == old(settings).enable_kitty_keyboard,
        !(change is KittyGraphics) ==> final(settings).enable_kitty_graphics == old(settings).enable_kitty_graphics,
        !(change is MouseReporting) ==> final(settings).mouse_reporting == old(settings).mouse_reporting,
        !(change is ScrollOnOutput) ==> final(settings).scroll_on_output == old(settings).scroll_on_output,
        !(change is ScrollOnKeypress) ==> final(settings).scroll_on_keypress == old(settings).scroll_on_keypress,
        !(change is Answerback) ==> text_view(final(settings).answerback) == text_view(old(settings).answerback),
        final(settings).color_scheme == old(settings).color_scheme,
{
}

/// A setting that was changed is in force once the settings are merged and resolved,
/// whatever the defaults are.
pub proof fn a_changed_setting_is_in_force(
    settings: &mut TerminalSettings,
    change: TerminalSettingChange,
    defaults: &TerminalSettings,
    merged: TerminalSettings,
    r: ResolvedTerminalSettings,
)
    requires
        call_ensures(TerminalSettings::apply, (settings, change), ()),
        call_ensures(TerminalSettings::merge_over, (&*final(settings), defaults), merged),
        call_ensures(TerminalSettings::resolve, (&merged,), r),
    ensures
        match change {
            TerminalSettingChange::TerminalType(v) => r.terminal_type@ == v@,
            TerminalSettingChange::Cols(v) => r.initial_cols == v,
            TerminalSettingChange::Rows(v) => r.initial_rows == v,
            TerminalSettingChange::ScrollbackLines(v) => r.scrollback_lines == v,
            TerminalSettingChange::DeleteKey(v) => r.delete_key == v,
            TerminalSettingChange::BackspaceKey(v) => r.backspace_key == v,
            TerminalSettingChange::LeftAltMeta(v) => r.left_alt_as_meta == v,
            TerminalSettingChange::RightAltMeta(v) => r.right_alt_as_meta == v,
            TerminalSettingChange::CsiU(v) => r.enable_csi_u == v,
            TerminalSettingChange::KittyKeyboard(v) => r.enable_kitty_keyboard == v,
            TerminalSettingChange::KittyGraphics(v) => r.enable_kitty_graphics == v,
            TerminalSettingChange::MouseReporting(v) => r.mouse_reporting == v,
            TerminalSettingChange::ScrollOnOutput(v) => r.scroll_on_output == v,
            TerminalSettingChange::ScrollOnKeypress(v) => r.scroll_on_keypress == v,
            TerminalSettingChange::Answerback(v) => r.answerback@ == v@,
        },
{
    a_change_sets_its_value(settings, change);
    session_values_win(&*final(settings), defaults, merged);
    set_values_are_resolved(&merged, r);
}

/// A colour as one number: red, green and blue, two hexadecimal digits each.
pub open spec fn hex(rgb: (u8, u8, u8)) -> int {
    (rgb.0 * 0x100 + rgb.1) * 0x100 + rgb.2
}

/// The colours of One Dark, as they are published: the ANSI colours, then foreground,
/// background, cursor and selection.
pub proof fn colors_of_one_dark(r: SchemeColors)
    requires
        call_ensures(ColorScheme::scheme_colors, (ColorScheme::OneDark,), r),
    ensures
        hex(r.0@[0]) == 0x282c34,
        hex(r.0@[1]) == 0xe06c75,
        hex(r.0@[2]) == 0x98c379,
        hex(r.0@[3]) == 0xe5c07b,
        hex(r.0@[4]) == 0x61afef,
        hex(r.0@[5]) == 0xc678dd,
        hex(r.0@[6]) == 0x56b6c2,
        hex(r.0@[7]) == 0xabb2bf,
        hex(r.0@[8]) == 0x545862,
        hex(r.0@[9]) == 0xe06c75,
        hex(r.0@[10]) == 0x98c379,
        hex(r.0@[11]) == 0xe5c07b,
        hex(r.0@[12]) == 0x61afef,
        hex(r.0@[13]) == 0xc678dd,
        hex(r.0@[14]) == 0x56b6c2,
        hex(r.0@[15]) == 0xffffff,
        hex(r.1) == 0xabb2bf,
        hex(r.2) == 0x282c34,
        hex(r.3) == 0x528bff,
        hex(r.4) == 0x3e4a5b,
{
}

/// The colours of Solarized Dark, as they are published: the ANSI colours, then foreground,
/// background, cursor and selection.
pub proof fn colors_of_solarized_dark(r: SchemeColors)
    requires
        call_ensures(ColorScheme::scheme_colors, (ColorScheme::SolarizedDark,), r),
    ensures
        hex(r.0@[0]) == 0x073642,
        hex(r.0@[1]) == 0xdc322f,
        hex(r.0@[2]) == 0x859900,
        hex(r.0@[3]) == 0xb58900,
        hex(r.0@[4]) == 0x268bd2,
        hex(r.0@[5]) == 0xd33682,
        hex(r.0@[6]) == 0x2aa198,
        hex(r.0@[7]) == 0xeee8d5,
        hex(r.0@[8]) == 0x002b36,
        hex(r.0@[9]) == 0xcb4b16,
        hex(r.0@[10]) == 0x586e75,
        hex(r.0@[11]) == 0x657b83,
        hex(r.0@[12]) == 0x839496,
        hex(r.0@[13]) == 0x6c71c4,
        hex(r.0@[14]) == 0x93a1a1,
        hex(r.0@[15]) == 0xfdf6e3,
        hex(r.1) == 0x839496,
        hex(r.2) == 0x002b36,
        hex(r.3) == 0x839496,
        hex(r.4) == 0x073642,
{
}

/// The colours of Solarized Light, as they are published: the ANSI colours, then foreground,
/// background, cursor and selection.
pub proof fn colors_of_solarized_light(r: SchemeColors)
    requires
        call_ensures(ColorScheme::scheme_colors, (ColorScheme::SolarizedLight,), r),
    ensures
        hex(r.0@[0]) == 0xeee8d5,
        hex(r.0@[1]) == 0xdc322f,
        hex(r.0@[2]) == 0x859900,
        hex(r.0@[3]) == 0xb58900,
        hex(r.0@[4]) == 0x268bd2,
        hex(r.0@[5]) == 0xd33682,
        hex(r.0@[6]) == 0x2aa198,
        hex(r.0@[7]) == 0x073642,
        hex(r.0@[8]) == 0xfdf6e3,
        hex(r.0@[9]) == 0xcb4b16,
        hex(r.0@[10]) == 0x93a1a1,
        hex(r.0@[11]) == 0x839496,
        hex(r.0@[12]) == 0x657b83,
        hex(r.0@[13]) == 0x6c71c4,
        hex(r.0@[14]) == 0x586e75,
        hex(r.0@[15]) == 0x002b36,
        hex(r.1) == 0x657b83,
        hex(r.2) == 0xfdf6e3,
        hex(r.3) == 0x657b83,
        hex(r.4) == 0xeee8d5,
{
}

/// The colours of Dracula, as they are published: the ANSI colours, then foreground,
/// background, cursor and selection.
pub proof fn colors_of_dracula(r: SchemeColors)
    requires
        call_ensures(ColorScheme::scheme_colors, (ColorScheme::Dracula,), r),
    ensures
        hex(r.0@[0]) == 0x21222c,
        hex(r.0@[1]) == 0xff5555,
        hex(r.0@[2]) == 0x50fa7b,
        hex(r.0@[3]) == 0xf1fa8c,
        hex(r.0@[4]) == 0xbd93f9,
        hex(r.0@[5]) == 0xff79c6,
        hex(r.0@[6]) == 0x8be9fd,
        hex(r.0@[7]) == 0xf8f8f2,
        hex(r.0@[8]) == 0x6272a4,
        hex(r.0@[9]) == 0xff6e6e,
        hex(r.0@[10]) == 0x69ff94,
        hex(r.0@[11]) == 0xffffa5,
        hex(r.0@[12]) == 0xd6acff,
        hex(r.0@[13]) == 0xff92df,
        hex(r.0@[14]) == 0xa4ffff,
        hex(r.0@[15]) == 0xffffff,
        hex(r.1) == 0xf8f8f2,
        hex(r.2) == 0x282a36,
        hex(r.3) == 0xf8f8f2,
        hex(r.4) == 0x44475a,
{
}

/// The colours of Monokai, as they are published: the ANSI colours, then foreground,
/// background, cursor and selection.
pub proof fn colors_of_monokai(r: SchemeColors)
    requires
        call_ensures(ColorScheme::scheme_colors, (ColorScheme::Monokai,), r),
    ensures
        hex(r.0@[0]) == 0x272822,
        hex(r.0@[1]) == 0xf92672,
        hex(r.0@[2]) == 0xa6e22e,
        hex(r.0@[3]) == 0xf4bf75,
        hex(r.0@[4]) == 0x66d9ef,
        hex(r.0@[5]) == 0xae81ff,
        hex(r.0@[6]) == 0xa1efe4,
        hex(r.0@[7]) == 0xf8f8f2,
        hex(r.0@[8]) == 0x75715e,
        hex(r.0@[9]) == 0xf92672,
        hex(r.0@[10]) == 0xa6e22e,
        hex(r.0@[11]) == 0xf4bf75,
        hex(r.0@[12]) == 0x66d9ef,
        hex(r.0@[13]) == 0xae81ff,
        hex(r.0@[14]) == 0xa1efe4,
        hex(r.0@[15]) == 0xf9f8f5,
        hex(r.1) == 0xf8f8f2,
        hex(r.2) == 0x272822,
        hex(r.3) == 0xf8f8f0,
        hex(r.4) == 0x49483e,
{
}

/// The colours of Nord, as they are published: the ANSI colours, then foreground,
/// background, cursor and selection.
pub proof fn colors_of_nord(r: SchemeColors)
    requires
        call_ensures(ColorScheme::scheme_colors, (ColorScheme::Nord,), r),
    ensures
        hex(r.0@[0]) == 0x3b4252,
        hex(r.0@[1]) == 0xbf616a,
        hex(r.0@[2]) == 0xa3be8c,
        hex(r.0@[3]) == 0xebcb8b,
        hex(r.0@[4]) == 0x81a1c1,
        hex(r.0@[5]) == 0xb48ead,
        hex(r.0@[6]) == 0x88c0d0,
        hex(r.0@[7]) == 0xe5e9f0,
        hex(r.0@[8]) == 0x4c566a,
        hex(r.0@[9]) == 0xbf616a,
        hex(r.0@[10]) == 0xa3be8c,
        hex(r.0@[11]) == 0xebcb8b,
        hex(r.0@[12]) == 0x81a1c1,
        hex(r.0@[13]) == 0xb48ead,
        hex(r.0@[14]) == 0x8fbcbb,
        hex(r.0@[15]) == 0xeceff4,
        hex(r.1) == 0xd8dee9,
        hex(r.2) == 0x2e3440,
        hex(r.3) == 0xd8dee9,
        hex(r.4) == 0x434c5e,
{
}

/// The colours of Gruvbox Dark, as they are published: the ANSI colours, then foreground,
/// background, cursor and selection.
pub proof fn colors_of_gruvbox_dark(r: SchemeColors)
    requires
        call_ensures(ColorScheme::scheme_colors, (ColorScheme::GruvboxDark,), r),
    ensures
        hex(r.0@[0]) == 0x282828,
        hex(r.0@[1]) == 0xcc241d,
        hex(r.0@[2]) == 0x98971a,
        hex(r.0@[3]) == 0xd79921,
        hex(r.0@[4]) == 0x458588,
        hex(r.0@[5]) == 0xb16286,
        hex(r.0@[6]) == 0x689d6a,
        hex(r.0@[7]) == 0xa89984,
        hex(r.0@[8]) == 0x928374,
        hex(r.0@[9]) == 0xfb4934,
        hex(r.0@[10]) == 0xb8bb26,
        hex(r.0@[11]) == 0xfabd2f,
        hex(r.0@[12]) == 0x83a598,
        hex(r.0@[13]) == 0xd3869b,
        hex(r.0@[14]) == 0x8ec07c,
        hex(r.0@[15]) == 0xebdbb2,
        hex(r.1) == 0xebdbb2,
        hex(r.2) == 0x282828,
        hex(r.3) == 0xebdbb2,
        hex(r.4) == 0x504945,
{
}

/// The colours of Tokyo Night, as they are published: the ANSI colours, then foreground,
/// background, cursor and selection.
pub proof fn colors_of_tokyo_night(r: SchemeColors)
    requires
        call_ensures(ColorScheme::scheme_colors, (ColorScheme::TokyoNight,), r),
    ensures
        hex(r.0@[0]) == 0x15161e,
        hex(r.0@[1]) == 0xf7768e,
        hex(r.0@[2]) == 0x9ece6a,
        hex(r.0@[3]) == 0xe0af68,
        hex(r.0@[4]) == 0x7aa2f7,
        hex(r.0@[5]) == 0xbb9af7,
        hex(r.0@[6]) == 0x7dcfff,
        hex(r.0@[7]) == 0xa9b1d6,
        hex(r.0@[8]) == 0x414868,
        hex(r.0@[9]) == 0xf7768e,
        hex(r.0@[10]) == 0x9ece6a,
        hex(r.0@[11]) == 0xe0af68,
        hex(r.0@[12]) == 0x7aa2f7,
        hex(r.0@[13]) == 0xbb9af7,
        hex(r.0@[14]) == 0x7dcfff,
        hex(r.0@[15]) == 0xc0caf5,
        hex(r.1) == 0xa9b1d6,
        hex(r.2) == 0x1a1b26,
        hex(r.3) == 0xc0caf5,
        hex(r.4) == 0x283b70,
{
}

/// The colours of Campbell Powershell, as they are published: the ANSI colours, then foreground,
/// background, cursor and selection.
pub proof fn colors_of_campbell_powershell(r: SchemeColors)
    requires
        call_ensures(ColorScheme::scheme_colors, (ColorScheme::CampbellPowershell,), r),
    ensures
        hex(r.0@[0]) == 0x0c0c0c,
        hex(r.0@[1]) == 0xc50f1f,
        hex(r.0@[2]) == 0x13a10e,
        hex(r.0@[3]) == 0xc19c00,
        hex(r.0@[4]) == 0x0037da,
        hex(r.0@[5]) == 0x881798,
        hex(r.0@[6]) == 0x3a96dd,
        hex(r.0@[7]) == 0xcccccc,
        hex(r.0@[8]) == 0x767676,
        hex(r.0@[9]) == 0xe74856,
        hex(r.0@[10]) == 0x16c60c,
        hex(r.0@[11]) == 0xf9f1a5,
        hex(r.0@[12]) == 0x3b78ff,
        hex(r.0@[13]) == 0xb4009e,
        hex(r.0@[14]) == 0x61d6d6,
        hex(r.0@[15]) == 0xf2f2f2,
        hex(r.1) == 0xcccccc,
        hex(r.2) == 0x012456,
        hex(r.3) == 0xcccccc,
        hex(r.4) == 0x13447e,
{
}

/// The palette of a scheme shows the colours of the scheme, opaque but for the selection,
/// and leaves the other colours to the built-in palette.
pub proof fn palette_shows_the_scheme(scheme: ColorScheme, colors: SchemeColors, r: ColorPalette)
    requires
        scheme != ColorScheme::Default,
        call_ensures(ColorScheme::scheme_colors, (scheme,), colors),
        call_ensures(ColorScheme::build_palette, (scheme,), r),
    ensures
        r.colors@.len() == 256,
        forall|i: int| #![trigger r.colors@[i]]
            0 <= i < 16 ==> r.colors@[i] is Some && shows(r.colors@[i]->0, colors.0@[i], 100),
        forall|i: int| 16 <= i < 256 ==> #[trigger] r.colors@[i] is None,
        r.foreground matches Some(c) && shows(c, colors.1, 100),
        r.background matches Some(c) && shows(c, colors.2, 100),
        r.cursor_fg == r.background,
        r.cursor_bg matches Some(c) && shows(c, colors.3, 100),
        r.cursor_border == r.cursor_bg,
        r.selection_fg matches Some(c) && c.opacity_percent == 0,
        r.selection_bg matches Some(c) && shows(c, colors.4, 50),
{
    assert forall|i: int| #![trigger r.colors@[i]] 0 <= i < 16 implies r.colors@[i] is Some && shows(
        r.colors@[i]->0,
        colors.0@[i],
        100,
    ) by {
        assert(r.colors@[i] == Some(opaque(colors.0@[i])));
    }
}

/// Whether a colour has the given red, green and blue and is so many percent opaque.
pub open spec fn shows(color: Color, rgb: (u8, u8, u8), opacity: int) -> bool {
    color.red == rgb.0 && color.green == rgb.1 && color.blue == rgb.2 && color.opacity_percent
        == opacity
}

/// The default scheme overrides nothing.
pub proof fn default_palette_inherits(r: ColorPalette)
    requires
        call_ensures(ColorScheme::build_palette, (ColorScheme::Default,), r),
    ensures
        r.colors@.len() == 256,
        forall|i: int| 0 <= i < 256 ==> #[trigger] r.colors@[i] is None,
        r.foreground is None && r.background is None,
        r.cursor_fg is None && r.cursor_bg is None && r.cursor_border is None,
        r.selection_fg is None && r.selection_bg is None,
{
}

/// The place of a theme among those on offer leads back to the theme, and every place on
/// offer to a theme of that place.
pub proof fn themes_are_found_again(theme: AppTheme, place: usize, r: Option<AppTheme>)
    requires
        call_ensures(AppTheme::at, (place,), r),
    ensures
        call_ensures(AppTheme::position, (theme,), place) ==> r == Some(theme),
        r is None <==> place >= 3,
{
}

/// A terminal type on offer is found at its place, and its place leads back to it.
pub proof fn terminal_types_are_found_again(name: &str, place: usize, r: Option<&'static str>)
    requires
        call_ensures(terminal_type_position, (name,), place),
        call_ensures(terminal_type_at, (place,), r),
    ensures
        r is Some,
        (exists|i: int| 0 <= i < 10 && (#[trigger] TERMINAL_TYPES@[i])@ == name@) ==> r->0@ == name@,
        !(exists|i: int| 0 <= i < 10 && (#[trigger] TERMINAL_TYPES@[i])@ == name@) ==> place == 0,
{
}

} // verus!
