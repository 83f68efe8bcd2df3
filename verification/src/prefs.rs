//! Preference choices: the interface theme, the cursor style, and the
//! options the settings view offers.

use vstd::prelude::*;
use vstd::string::*;

verus! {

/// The file preferences are saved in, inside the configuration directory.
pub const PREFS_FILE: &'static str = "prefs.json";

/// Interface theme.
#[derive(Debug, Clone, Copy, PartialEq, Eq, Structural)]
pub enum Theme {
    Dark,
    Light,
}

/// Terminal cursor style.
#[derive(Debug, Clone, Copy, PartialEq, Eq, Structural)]
pub enum CursorStyle {
    Block,
    Underline,
    Bar,
}

/// The saved name of a theme.
pub open spec fn theme_name(t: Theme) -> Seq<char> {
    match t {
        Theme::Dark => "dark"@,
        Theme::Light => "light"@,
    }
}

/// The saved name of a cursor style.
pub open spec fn cursor_style_name(c: CursorStyle) -> Seq<char> {
    match c {
        CursorStyle::Block => "block"@,
        CursorStyle::Underline => "underline"@,
        CursorStyle::Bar => "bar"@,
    }
}

impl Theme {
    /// The name the theme is saved under (lowercase).
    pub fn name(&self) -> (s: &'static str)
        ensures
            s@ == theme_name(*self),
    {
        match self {
            Theme::Dark => "dark",
            Theme::Light => "light",
        }
    }

    /// The theme saved under `name`, if any.
    pub fn from_name(name: &str) -> (t: Option<Theme>)
        ensures
            match t {
                Some(x) => theme_name(x) == name@,
                None => name@ != "dark"@ && name@ != "light"@,
            },
    {
        if crate::text::text_eq(name, "dark") {
            Some(Theme::Dark)
        } else if crate::text::text_eq(name, "light") {
            Some(Theme::Light)
        } else {
            None
        }
    }
}

impl CursorStyle {
    /// The name the style is saved under (lowercase).
    pub fn name(&self) -> (s: &'static str)
        ensures
            s@ == cursor_style_name(*self),
    {
        match self {
            CursorStyle::Block => "block",
            CursorStyle::Underline => "underline",
            CursorStyle::Bar => "bar",
        }
    }

    /// The style saved under `name`, if any.
    pub fn from_name(name: &str) -> (c: Option<CursorStyle>)
        ensures
            match c {
                Some(x) => cursor_style_name(x) == name@,
                None => name@ != "block"@ && name@ != "underline"@ && name@ != "bar"@,
            },
    {
        if crate::text::text_eq(name, "block") {
            Some(CursorStyle::Block)
        } else if crate::text::text_eq(name, "underline") {
            Some(CursorStyle::Underline)
        } else if crate::text::text_eq(name, "bar") {
            Some(CursorStyle::Bar)
        } else {
            None
        }
    }
}

/// A theme read back from its saved name is the same theme, and likewise
/// for cursor styles.
pub proof fn lemma_names_round_trip(t: Theme, c: CursorStyle)
    ensures
        forall|x: Theme| theme_name(x) == theme_name(t) ==> x == t,
        forall|y: CursorStyle| cursor_style_name(y) == cursor_style_name(c) ==> y == c,
{
    reveal_strlit("dark");
    reveal_strlit("light");
    reveal_strlit("block");
    reveal_strlit("underline");
    reveal_strlit("bar");
    assert("dark"@ != "light"@) by {
        assert("dark"@[0] != "light"@[0]);
    }
    assert("block"@ != "bar"@) by {
        assert("block"@[1] != "bar"@[1]);
    }
    assert("block"@ != "underline"@) by {
        assert("block"@[0] != "underline"@[0]);
    }
    assert("bar"@ != "underline"@) by {
        assert("bar"@[0] != "underline"@[0]);
    }
}

/// The settings view (it keeps no state of its own).
#[derive(Debug, Default, Clone, Copy)]
pub struct SettingsView;

/// The font families the settings view offers.
pub fn font_families() -> (r: Vec<&'static str>)
    ensures
        r@.len() == 5,
        r@[0]@ == "monospace"@,
        r@[1]@ == "JetBrains Mono"@,
        r@[2]@ == "Fira Code"@,
        r@[3]@ == "Cascadia Mono"@,
        r@[4]@ == "Menlo"@,
{
    let mut r: Vec<&'static str> = Vec::new();
    r.push("monospace");
    r.push("JetBrains Mono");
    r.push("Fira Code");
    r.push("Cascadia Mono");
    r.push("Menlo");
    r
}

/// The smallest and largest font sizes the settings view allows, in pixels.
pub const FONT_SIZE_MIN: u32 = 10;

pub const FONT_SIZE_MAX: u32 = 24;

/// The scrollback choices, labelled.
pub fn scrollback_choices() -> (r: Vec<(&'static str, usize)>)
    ensures
        r@.len() == 4,
        r@[0].0@ == "1.000"@ && r@[0].1 == 1000,
        r@[1].0@ == "5.000"@ && r@[1].1 == 5000,
        r@[2].0@ == "10.000"@ && r@[2].1 == 10000,
        r@[3].0@ == "Sin límite"@ && r@[3].1 == 1000000,
{
    let mut r: Vec<(&'static str, usize)> = Vec::new();
    r.push(("1.000", 1000));
    r.push(("5.000", 5000));
    r.push(("10.000", 10000));
    r.push(("Sin límite", 1000000));
    r
}

/// The cursor style choices, labelled.
pub fn cursor_style_choices() -> (r: Vec<(&'static str, CursorStyle)>)
    ensures
        r@.len() == 3,
        r@[0].0@ == "▮ Bloque"@ && r@[0].1 == CursorStyle::Block,
        r@[1].0@ == "_ Subrayado"@ && r@[1].1 == CursorStyle::Underline,
        r@[2].0@ == "| Barra"@ && r@[2].1 == CursorStyle::Bar,
{
    let mut r: Vec<(&'static str, CursorStyle)> = Vec::new();
    r.push(("▮ Bloque", CursorStyle::Block));
    r.push(("_ Subrayado", CursorStyle::Underline));
    r.push(("| Barra", CursorStyle::Bar));
    r
}

/// The theme choices, labelled.
pub fn theme_choices() -> (r: Vec<(&'static str, Theme)>)
    ensures
        r@.len() == 2,
        r@[0].0@ == "Oscuro"@ && r@[0].1 == Theme::Dark,
        r@[1].0@ == "Claro"@ && r@[1].1 == Theme::Light,
{
    let mut r: Vec<(&'static str, Theme)> = Vec::new();
    r.push(("Oscuro", Theme::Dark));
    r.push(("Claro", Theme::Light));
    r
}

/// The keyboard shortcuts the settings view lists, as (effect, keys).
pub fn settings_shortcuts() -> (r: Vec<(&'static str, &'static str)>)
    ensures
        r@.len() == 6,
        r@[0].0@ == "Cambiar a la pestaña 1–9"@ && r@[0].1@ == "Ctrl/Cmd + 1–9"@,
        r@[1].0@ == "Cambiar de pestaña"@ && r@[1].1@ == "Ctrl/Cmd + Tab"@,
        r@[2].0@ == "Cerrar pestaña activa"@ && r@[2].1@ == "Ctrl/Cmd + W"@,
        r@[3].0@ == "Buscar en terminal"@ && r@[3].1@ == "Ctrl/Cmd + F"@,
        r@[4].0@ == "Copiar selección de terminal"@ && r@[4].1@ == "Ctrl/Cmd + Shift + C"@,
        r@[5].0@ == "Limpiar terminal"@ && r@[5].1@ == "Ctrl/Cmd + Shift + K"@,
{
    let mut r: Vec<(&'static str, &'static str)> = Vec::new();
    r.push(("Cambiar a la pestaña 1–9", "Ctrl/Cmd + 1–9"));
    r.push(("Cambiar de pestaña", "Ctrl/Cmd + Tab"));
    r.push(("Cerrar pestaña activa", "Ctrl/Cmd + W"));
    r.push(("Buscar en terminal", "Ctrl/Cmd + F"));
    r.push(("Copiar selección de terminal", "Ctrl/Cmd + Shift + C"));
    r.push(("Limpiar terminal", "Ctrl/Cmd + Shift + K"));
    r
}

} // verus!
