use sshcli::color::{
    ansi256_color, ansi_color_to_rgb, cube_component, darken, named_color, paint_cell, AnsiColor,
    CellStyle, NamedColor, Rgb,
};
use sshcli::sizes::fmt_size;

fn rgb(r: u8, g: u8, b: u8) -> Rgb {
    Rgb { r, g, b }
}

#[test]
fn fmt_size_bytes() {
    assert_eq!(fmt_size(0), "0 B");
    assert_eq!(fmt_size(512), "512 B");
    assert_eq!(fmt_size(1023), "1023 B");
}

#[test]
fn fmt_size_scaled() {
    assert_eq!(fmt_size(1024), "1.0 KB");
    assert_eq!(fmt_size(1536), "1.5 KB");
    assert_eq!(fmt_size(1024 * 1024), "1.0 MB");
    assert_eq!(fmt_size(1024 * 1024 * 1024), "1.0 GB");
}

#[test]
fn fmt_size_rounds_like_one_decimal_float_formatting() {
    assert_eq!(fmt_size(1075), "1.0 KB");
    assert_eq!(fmt_size(1127), "1.1 KB");
    assert_eq!(fmt_size(1024 * 1024 - 1), "1024.0 KB");
    assert_eq!(fmt_size(5 * 1024 * 1024 * 1024 * 1024), "5120.0 GB");
    assert_eq!(fmt_size(u64::MAX), "17179869184.0 GB");
}

#[test]
fn truecolor_passthrough() {
    let color = ansi_color_to_rgb(AnsiColor::Spec(rgb(1, 2, 3)));
    assert_eq!(color, rgb(1, 2, 3));
    let white = ansi_color_to_rgb(AnsiColor::Spec(rgb(255, 255, 255)));
    assert_eq!(white, rgb(255, 255, 255));
}

#[test]
fn ansi_16_indexed_colors() {
    assert_eq!(ansi256_color(0), rgb(0x18, 0x18, 0x18));
    assert_eq!(ansi256_color(1), rgb(0xac, 0x42, 0x42));
    assert_eq!(ansi256_color(7), rgb(0xd8, 0xd8, 0xd8));
    assert_eq!(ansi256_color(15), rgb(0xf8, 0xf8, 0xf8));
}

#[test]
fn ansi_256_cube_boundaries() {
    assert_eq!(ansi256_color(16), rgb(0, 0, 0));
    assert_eq!(ansi256_color(21), rgb(0, 0, 255));
    assert_eq!(ansi256_color(231), rgb(255, 255, 255));
}

#[test]
fn ansi_256_grayscale_ramp() {
    assert_eq!(ansi256_color(232), rgb(8, 8, 8));
    assert_eq!(ansi256_color(255), rgb(238, 238, 238));
}

#[test]
fn cube_component_formula() {
    assert_eq!(cube_component(0), 0);
    assert_eq!(cube_component(1), 95);
    assert_eq!(cube_component(5), 255);
}

#[test]
fn named_colors_map_to_palette() {
    assert_eq!(ansi_color_to_rgb(AnsiColor::Named(NamedColor::Red)), rgb(0xac, 0x42, 0x42));
    assert_eq!(ansi_color_to_rgb(AnsiColor::Named(NamedColor::Foreground)), rgb(0xd8, 0xd8, 0xd8));
    assert_eq!(ansi_color_to_rgb(AnsiColor::Named(NamedColor::Background)), rgb(0x18, 0x18, 0x18));
}

#[test]
fn indexed_and_named_roundtrip_through_single_entry() {
    let names = [
        NamedColor::Black,
        NamedColor::Red,
        NamedColor::Green,
        NamedColor::Yellow,
        NamedColor::Blue,
        NamedColor::Magenta,
        NamedColor::Cyan,
        NamedColor::White,
        NamedColor::BrightBlack,
        NamedColor::BrightRed,
        NamedColor::BrightGreen,
        NamedColor::BrightYellow,
        NamedColor::BrightBlue,
        NamedColor::BrightMagenta,
        NamedColor::BrightCyan,
        NamedColor::BrightWhite,
    ];
    for (index, name) in names.iter().enumerate() {
        assert_eq!(
            ansi_color_to_rgb(AnsiColor::Named(*name)),
            ansi_color_to_rgb(AnsiColor::Indexed(index as u8)),
            "mismatch for named color index {index}"
        );
    }
}

#[test]
fn dim_colors_are_half_bright() {
    assert_eq!(darken(rgb(200, 101, 0)), rgb(100, 50, 0));
    assert_eq!(named_color(NamedColor::DimRed), rgb(0x56, 0x21, 0x21));
}

#[test]
fn cube_component_steps_by_forty() {
    let values: Vec<u8> = (0..6).map(cube_component).collect();
    assert_eq!(values, vec![0, 95, 135, 175, 215, 255]);
}

#[test]
fn painted_cell_swaps_colors_when_inverse() {
    let style = CellStyle {
        fg: AnsiColor::Spec(rgb(1, 2, 3)),
        bg: AnsiColor::Spec(rgb(4, 5, 6)),
        bold: false,
        dim: false,
        inverse: true,
        underline: false,
        selected: false,
        cursor: false,
        character: 'x',
    };
    let paint = paint_cell(&style);
    assert_eq!(paint.fg, rgb(4, 5, 6));
    assert_eq!(paint.bg, rgb(1, 2, 3));
    assert!(paint.background);
    assert!(paint.glyph);
}
