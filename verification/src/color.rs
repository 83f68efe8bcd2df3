//! Terminal colors: the ANSI 16-color palette, the xterm 256-color cube and
//! grayscale ramp, named colors, and the colors a grid cell is painted with.

use vstd::prelude::*;

verus! {

/// A 24-bit color.
#[derive(Debug, Clone, Copy, PartialEq, Eq, Structural)]
pub struct Rgb {
    pub r: u8,
    pub g: u8,
    pub b: u8,
}

/// The named colors of the terminal emulator.
#[derive(Debug, Clone, Copy, PartialEq, Eq, Structural)]
pub enum NamedColor {
    Black,
    Red,
    Green,
    Yellow,
    Blue,
    Magenta,
    Cyan,
    White,
    BrightBlack,
    BrightRed,
    BrightGreen,
    BrightYellow,
    BrightBlue,
    BrightMagenta,
    BrightCyan,
    BrightWhite,
    Foreground,
    Background,
    Cursor,
    DimBlack,
    DimRed,
    DimGreen,
    DimYellow,
    DimBlue,
    DimMagenta,
    DimCyan,
    DimWhite,
    BrightForeground,
    DimForeground,
}

/// A cell color: truecolor, an index into the 256-color palette, or a name.
#[derive(Debug, Clone, Copy, PartialEq, Eq, Structural)]
pub enum AnsiColor {
    Spec(Rgb),
    Indexed(u8),
    Named(NamedColor),
}

pub open spec fn rgb(r: u8, g: u8, b: u8) -> Rgb {
    Rgb { r, g, b }
}

/// The 16 legacy ANSI colors (the default alacritty scheme).
pub open spec fn ansi16(i: int) -> Rgb {
    if i == 0 {
        rgb(0x18, 0x18, 0x18)
    } else if i == 1 {
        rgb(0xac, 0x42, 0x42)
    } else if i == 2 {
        rgb(0x90, 0xa9, 0x59)
    } else if i == 3 {
        rgb(0xf4, 0xbf, 0x75)
    } else if i == 4 {
        rgb(0x6a, 0x9f, 0xb5)
    } else if i == 5 {
        rgb(0xaa, 0x75, 0x9f)
    } else if i == 6 {
        rgb(0x75, 0xb5, 0xaa)
    } else if i == 7 {
        rgb(0xd8, 0xd8, 0xd8)
    } else if i == 8 {
        rgb(0x6b, 0x6b, 0x6b)
    } else if i == 9 {
        rgb(0xc5, 0x55, 0x55)
    } else if i == 10 {
        rgb(0xaa, 0xc4, 0x74)
    } else if i == 11 {
        rgb(0xfe, 0xca, 0x88)
    } else if i == 12 {
        rgb(0x82, 0xb8, 0xc8)
    } else if i == 13 {
        rgb(0xc2, 0x8c, 0xb8)
    } else if i == 14 {
        rgb(0x93, 0xd3, 0xc3)
    } else {
        rgb(0xf8, 0xf8, 0xf8)
    }
}

/// The default foreground color.
pub open spec fn default_foreground() -> Rgb {
    rgb(0xd8, 0xd8, 0xd8)
}

/// The default background color.
pub open spec fn default_background() -> Rgb {
    rgb(0x18, 0x18, 0x18)
}

/// The background of selected cells.
pub open spec fn selection_color() -> Rgb {
    rgb(0x3a, 0x3a, 0x6a)
}

pub open spec fn white() -> Rgb {
    rgb(255, 255, 255)
}

/// A component of the 6x6x6 color cube: `0` or `55 + 40 n`.
pub open spec fn cube_value(n: int) -> int {
    if n == 0 {
        0
    } else {
        55 + 40 * n
    }
}

/// The color of palette index `i`: the 16 ANSI colors, the color cube
/// (16..=231), then the grayscale ramp (232..=255).
pub open spec fn palette(i: u8) -> Rgb {
    if i < 16 {
        ansi16(i as int)
    } else if i < 232 {
        let j = i - 16;
        rgb(
            cube_value(j / 36) as u8,
            cube_value((j % 36) / 6) as u8,
            cube_value(j % 6) as u8,
        )
    } else {
        let v = (8 + (i - 232) * 10) as u8;
        rgb(v, v, v)
    }
}

/// A color at half intensity.
pub open spec fn halved(c: Rgb) -> Rgb {
    rgb(c.r / 2, c.g / 2, c.b / 2)
}

/// The position of a color among the 16 ANSI names, for the ones that have one.
pub open spec fn ansi_index(n: NamedColor) -> Option<int> {
    match n {
        NamedColor::Black => Some(0),
        NamedColor::Red => Some(1),
        NamedColor::Green => Some(2),
        NamedColor::Yellow => Some(3),
        NamedColor::Blue => Some(4),
        NamedColor::Magenta => Some(5),
        NamedColor::Cyan => Some(6),
        NamedColor::White => Some(7),
        NamedColor::BrightBlack => Some(8),
        NamedColor::BrightRed => Some(9),
        NamedColor::BrightGreen => Some(10),
        NamedColor::BrightYellow => Some(11),
        NamedColor::BrightBlue => Some(12),
        NamedColor::BrightMagenta => Some(13),
        NamedColor::BrightCyan => Some(14),
        NamedColor::BrightWhite => Some(15),
        _ => None,
    }
}

/// The position of a dim color's normal counterpart.
pub open spec fn dim_index(n: NamedColor) -> Option<int> {
    match n {
        NamedColor::DimBlack => Some(0),
        NamedColor::DimRed => Some(1),
        NamedColor::DimGreen => Some(2),
        NamedColor::DimYellow => Some(3),
        NamedColor::DimBlue => Some(4),
        NamedColor::DimMagenta => Some(5),
        NamedColor::DimCyan => Some(6),
        NamedColor::DimWhite => Some(7),
        _ => None,
    }
}

/// The color of a named color.
pub open spec fn named(n: NamedColor) -> Rgb {
    match ansi_index(n) {
        Some(i) => ansi16(i),
        None => match dim_index(n) {
            Some(i) => halved(ansi16(i)),
            None => if n == NamedColor::Background {
                default_background()
            } else {
                default_foreground()
            },
        },
    }
}

/// The color a cell color is painted with.
pub open spec fn color_of(c: AnsiColor) -> Rgb {
    match c {
        AnsiColor::Spec(x) => x,
        AnsiColor::Indexed(i) => palette(i),
        AnsiColor::Named(n) => named(n),
    }
}

fn make(r: u8, g: u8, b: u8) -> (c: Rgb)
    ensures
        c == rgb(r, g, b),
{
    Rgb { r, g, b }
}

fn ansi16_exec(i: u8) -> (c: Rgb)
    requires
        i < 16,
    ensures
        c == ansi16(i as int),
{
    match i {
        0 => make(0x18, 0x18, 0x18),
        1 => make(0xac, 0x42, 0x42),
        2 => make(0x90, 0xa9, 0x59),
        3 => make(0xf4, 0xbf, 0x75),
        4 => make(0x6a, 0x9f, 0xb5),
        5 => make(0xaa, 0x75, 0x9f),
        6 => make(0x75, 0xb5, 0xaa),
        7 => make(0xd8, 0xd8, 0xd8),
        8 => make(0x6b, 0x6b, 0x6b),
        9 => make(0xc5, 0x55, 0x55),
        10 => make(0xaa, 0xc4, 0x74),
        11 => make(0xfe, 0xca, 0x88),
        12 => make(0x82, 0xb8, 0xc8),
        13 => make(0xc2, 0x8c, 0xb8),
        14 => make(0x93, 0xd3, 0xc3),
        _ => make(0xf8, 0xf8, 0xf8),
    }
}

/// Convert a color-cube component (0..=5) to its byte value: `0, 95, 135,
/// 175, 215, 255`.
pub fn cube_component(n: u8) -> (v: u8)
    requires
        n <= 5,
    ensures
        v == cube_value(n as int),
{
    if n == 0 {
        0
    } else {
        55 + 40 * n
    }
}

/// Map an indexed ANSI 256 color to RGB: 0..=15 the legacy palette,
/// 16..=231 the 6x6x6 cube, 232..=255 the 24-step grayscale ramp.
pub fn ansi256_color(index: u8) -> (c: Rgb)
    ensures
        c == palette(index),
{
    if index < 16 {
        ansi16_exec(index)
    } else if index < 232 {
        let i = index - 16;
        make(cube_component(i / 36), cube_component((i % 36) / 6), cube_component(i % 6))
    } else {
        let value = 8 + (index - 232) * 10;
        make(value, value, value)
    }
}

/// Reduce the intensity of a color by half (the "dim" attribute).
pub fn darken(color: Rgb) -> (c: Rgb)
    ensures
        c == halved(color),
{
    make(color.r / 2, color.g / 2, color.b / 2)
}

/// Map a named color to RGB using the default palette.
pub fn named_color(color: NamedColor) -> (c: Rgb)
    ensures
        c == named(color),
{
    match color {
        NamedColor::Black => ansi16_exec(0),
        NamedColor::Red => ansi16_exec(1),
        NamedColor::Green => ansi16_exec(2),
        NamedColor::Yellow => ansi16_exec(3),
        NamedColor::Blue => ansi16_exec(4),
        NamedColor::Magenta => ansi16_exec(5),
        NamedColor::Cyan => ansi16_exec(6),
        NamedColor::White => ansi16_exec(7),
        NamedColor::BrightBlack => ansi16_exec(8),
        NamedColor::BrightRed => ansi16_exec(9),
        NamedColor::BrightGreen => ansi16_exec(10),
        NamedColor::BrightYellow => ansi16_exec(11),
        NamedColor::BrightBlue => ansi16_exec(12),
        NamedColor::BrightMagenta => ansi16_exec(13),
        NamedColor::BrightCyan => ansi16_exec(14),
        NamedColor::BrightWhite => ansi16_exec(15),
        NamedColor::Foreground | NamedColor::BrightForeground | NamedColor::DimForeground => make(
            0xd8,
            0xd8,
            0xd8,
        ),
        NamedColor::Background => make(0x18, 0x18, 0x18),
        NamedColor::DimBlack => darken(ansi16_exec(0)),
        NamedColor::DimRed => darken(ansi16_exec(1)),
        NamedColor::DimGreen => darken(ansi16_exec(2)),
        NamedColor::DimYellow => darken(ansi16_exec(3)),
        NamedColor::DimBlue => darken(ansi16_exec(4)),
        NamedColor::DimMagenta => darken(ansi16_exec(5)),
        NamedColor::DimCyan => darken(ansi16_exec(6)),
        NamedColor::DimWhite => darken(ansi16_exec(7)),
        NamedColor::Cursor => make(0xd8, 0xd8, 0xd8),
    }
}

/// Convert any cell color into RGB: truecolor passes through, indexed colors
/// use the 256-entry palette, named colors the default scheme.
pub fn ansi_color_to_rgb(color: AnsiColor) -> (c: Rgb)
    ensures
        c == color_of(color),
{
    match color {
        AnsiColor::Spec(x) => x,
        AnsiColor::Indexed(i) => ansi256_color(i),
        AnsiColor::Named(n) => named_color(n),
    }
}

/// Every one of the 16 ANSI names paints exactly as its palette index.
pub proof fn lemma_named_matches_indexed(n: NamedColor, i: u8)
    requires
        ansi_index(n) == Some(i as int),
    ensures
        color_of(AnsiColor::Named(n)) == color_of(AnsiColor::Indexed(i)),
{
}

/// Every cube index maps to components from the cube values
/// `0, 95, 135, 175, 215, 255`.
pub proof fn lemma_cube_components(i: u8)
    requires
        16 <= i < 232,
    ensures
        ({
            let c = palette(i);
            let ok = |x: u8|
                x == 0 || x == 95 || x == 135 || x == 175 || x == 215 || x == 255;
            ok(c.r) && ok(c.g) && ok(c.b)
        }),
{
}

/// What decides how one grid cell is painted.
pub struct CellStyle {
    pub fg: AnsiColor,
    pub bg: AnsiColor,
    pub bold: bool,
    pub dim: bool,
    pub inverse: bool,
    pub underline: bool,
    pub selected: bool,
    pub cursor: bool,
    pub character: char,
}

/// How one grid cell is painted.
#[derive(Debug, Clone, Copy, PartialEq, Eq, Structural)]
pub struct CellPaint {
    pub fg: Rgb,
    pub bg: Rgb,
    /// Whether a background rectangle is drawn (only when it differs from
    /// the surface background).
    pub background: bool,
    /// Whether the cursor block is drawn.
    pub cursor_block: bool,
    /// Whether an underline is drawn.
    pub underline: bool,
    /// Whether the glyph is drawn.
    pub glyph: bool,
}

/// The colors of a cell: bold brightens the default foreground to white, dim
/// halves the foreground, inverse swaps, and selection overrides both.
pub open spec fn cell_colors(s: CellStyle) -> (Rgb, Rgb) {
    let fg0 = color_of(s.fg);
    let bg0 = color_of(s.bg);
    let fg1 = if s.bold && fg0 == default_foreground() {
        white()
    } else {
        fg0
    };
    let fg2 = if s.dim {
        halved(fg1)
    } else {
        fg1
    };
    let (fg3, bg3) = if s.inverse {
        (bg0, fg2)
    } else {
        (fg2, bg0)
    };
    if s.selected {
        (white(), selection_color())
    } else {
        (fg3, bg3)
    }
}

/// How a cell is painted.
pub open spec fn cell_paint(s: CellStyle) -> CellPaint {
    let (fg, bg) = cell_colors(s);
    CellPaint {
        fg,
        bg,
        background: bg != default_background(),
        cursor_block: s.cursor,
        underline: s.underline,
        glyph: s.character != ' ' && s.character != '\t' && s.character != '\0' && !s.cursor,
    }
}

fn same(a: Rgb, b: Rgb) -> (r: bool)
    ensures
        r == (a == b),
{
    a.r == b.r && a.g == b.g && a.b == b.b
}

/// Decide the colors and shapes of one grid cell.
pub fn paint_cell(s: &CellStyle) -> (p: CellPaint)
    ensures
        p == cell_paint(*s),
{
    let mut fg = ansi_color_to_rgb(s.fg);
    let mut bg = ansi_color_to_rgb(s.bg);
    if s.bold && same(fg, make(0xd8, 0xd8, 0xd8)) {
        fg = make(255, 255, 255);
    }
    if s.dim {
        fg = darken(fg);
    }
    if s.inverse {
        let t = fg;
        fg = bg;
        bg = t;
    }
    if s.selected {
        bg = make(0x3a, 0x3a, 0x6a);
        fg = make(255, 255, 255);
    }
    let c = s.character;
    CellPaint {
        fg,
        bg,
        background: !same(bg, make(0x18, 0x18, 0x18)),
        cursor_block: s.cursor,
        underline: s.underline,
        glyph: c != ' ' && c != '\t' && c != '\0' && !s.cursor,
    }
}

} // verus!

verus! {

/// The six levels of each axis of the 256-color cube.
pub open spec fn cube_levels() -> Seq<u8> {
    seq![0u8, 95u8, 135u8, 175u8, 215u8, 255u8]
}

/// Palette entries 16 to 231 are the 6×6×6 color cube: entry
/// `16 + 36·r + 6·g + b` has red level `r`, green level `g` and blue level
/// `b`; entries 232 to 255 are the grays `8, 18, …, 238`.
pub proof fn lemma_palette_cube_and_grays(r: nat, g: nat, b: nat, k: nat)
    requires
        r < 6,
        g < 6,
        b < 6,
        k < 24,
    ensures
        palette((16 + 36 * r + 6 * g + b) as u8) == (Rgb {
            r: cube_levels()[r as int],
            g: cube_levels()[g as int],
            b: cube_levels()[b as int],
        }),
        palette((232 + k) as u8) == (Rgb { r: (8 + 10 * k) as u8, g: (8 + 10 * k) as u8, b: (8 + 10 * k) as u8 }),
{
    let i = (16 + 36 * r + 6 * g + b) as u8;
    let j = i - 16;
    assert(j == 36 * r + 6 * g + b);
    assert(j / 36 == r) by (nonlinear_arith)
        requires
            j == 36 * r + 6 * g + b,
            g < 6,
            b < 6,
    ;
    assert(j % 36 == 6 * g + b) by (nonlinear_arith)
        requires
            j == 36 * r + 6 * g + b,
            g < 6,
            b < 6,
    ;
    assert((6 * g + b) / 6 == g) by (nonlinear_arith)
        requires
            b < 6,
    ;
    assert(j % 6 == b) by (nonlinear_arith)
        requires
            j == 36 * r + 6 * g + b,
            b < 6,
    ;
}

} // verus!
