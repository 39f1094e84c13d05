//! Terminal Workbench palette, dark and light, and the active theme mode.
//! Every rendered surface reads its colors through a [`Theme`], so one
//! `set_mode` call re-themes the whole app.

use vstd::prelude::*;
use crate::config::{hex_value, is_hex_digit, parse_hex_spec};
use crate::strings::{eq_ignore_ascii_case, push_char, str_eq_ignore_ascii_case};

verus! {

/// An sRGB color as three 8-bit channels.
pub type Rgb = (u8, u8, u8);

/// The UI theme.
#[derive(Debug, Clone, Copy, PartialEq, Eq, Structural)]
pub enum ThemeMode {
    Dark,
    Light,
}

/// The colors of one theme.
#[derive(Debug, Clone, Copy)]
pub struct Palette {
    pub bg_0: Rgb,
    pub bg_1: Rgb,
    pub bg_2: Rgb,
    pub bg_3: Rgb,
    pub bg_4: Rgb,
    pub border: Rgb,
    pub border_strong: Rgb,
    pub text_normal: Rgb,
    pub text_soft: Rgb,
    pub text_muted: Rgb,
    pub text_faint: Rgb,
    pub text_on_accent: Rgb,
    pub accent: Rgb,
    pub accent_alt: Rgb,
    pub warm: Rgb,
    pub red: Rgb,
    pub orange: Rgb,
    pub violet: Rgb,
}

/// Terminal Workbench palette, dark variant (the default).
pub open spec fn dark_palette() -> Palette {
    Palette {
        bg_0: (0x09, 0x0c, 0x0d),
        bg_1: (0x0e, 0x12, 0x14),
        bg_2: (0x13, 0x19, 0x1c),
        bg_3: (0x18, 0x20, 0x24),
        bg_4: (0x20, 0x2a, 0x2f),
        border: (0x2a, 0x36, 0x3d),
        border_strong: (0x39, 0x48, 0x4f),
        text_normal: (0xdc, 0xe4, 0xdf),
        text_soft: (0xb4, 0xc3, 0xbd),
        text_muted: (0x87, 0x99, 0x94),
        text_faint: (0x63, 0x73, 0x6f),
        text_on_accent: (0x07, 0x10, 0x0d),
        accent: (0x63, 0xf2, 0xab),
        accent_alt: (0x6b, 0xdc, 0xff),
        warm: (0xf0, 0xc6, 0x74),
        red: (0xff, 0x6e, 0x7a),
        orange: (0xf7, 0xa3, 0x5c),
        violet: (0xb7, 0x8c, 0xff),
    }
}

/// Terminal Workbench palette, light variant.
pub open spec fn light_palette() -> Palette {
    Palette {
        bg_0: (0xf5, 0xf7, 0xf4),
        bg_1: (0xed, 0xf2, 0xee),
        bg_2: (0xe2, 0xea, 0xe5),
        bg_3: (0xd6, 0xe1, 0xdb),
        bg_4: (0xc8, 0xd5, 0xcf),
        border: (0xbf, 0xcb, 0xc5),
        border_strong: (0x9d, 0xae, 0xa7),
        text_normal: (0x17, 0x20, 0x1d),
        text_soft: (0x34, 0x44, 0x3f),
        text_muted: (0x60, 0x70, 0x6a),
        text_faint: (0x81, 0x91, 0x8a),
        text_on_accent: (0xf9, 0xfb, 0xf8),
        accent: (0x00, 0x7a, 0x4d),
        accent_alt: (0x00, 0x6f, 0x9e),
        warm: (0xa4, 0x66, 0x00),
        red: (0xc8, 0x32, 0x4c),
        orange: (0xb6, 0x58, 0x00),
        violet: (0x73, 0x57, 0xb8),
    }
}

/// The palette of a mode.
pub open spec fn palette_of(mode: ThemeMode) -> Palette {
    match mode {
        ThemeMode::Dark => dark_palette(),
        ThemeMode::Light => light_palette(),
    }
}

/// The palette of `mode`.
pub fn palette(mode: ThemeMode) -> (p: Palette)
    ensures
        p == palette_of(mode),
{
    match mode {
        ThemeMode::Dark => Palette {
            bg_0: (0x09, 0x0c, 0x0d),
            bg_1: (0x0e, 0x12, 0x14),
            bg_2: (0x13, 0x19, 0x1c),
            bg_3: (0x18, 0x20, 0x24),
            bg_4: (0x20, 0x2a, 0x2f),
            border: (0x2a, 0x36, 0x3d),
            border_strong: (0x39, 0x48, 0x4f),
            text_normal: (0xdc, 0xe4, 0xdf),
            text_soft: (0xb4, 0xc3, 0xbd),
            text_muted: (0x87, 0x99, 0x94),
            text_faint: (0x63, 0x73, 0x6f),
            text_on_accent: (0x07, 0x10, 0x0d),
            accent: (0x63, 0xf2, 0xab),
            accent_alt: (0x6b, 0xdc, 0xff),
            warm: (0xf0, 0xc6, 0x74),
            red: (0xff, 0x6e, 0x7a),
            orange: (0xf7, 0xa3, 0x5c),
            violet: (0xb7, 0x8c, 0xff),
        },
        ThemeMode::Light => Palette {
            bg_0: (0xf5, 0xf7, 0xf4),
            bg_1: (0xed, 0xf2, 0xee),
            bg_2: (0xe2, 0xea, 0xe5),
            bg_3: (0xd6, 0xe1, 0xdb),
            bg_4: (0xc8, 0xd5, 0xcf),
            border: (0xbf, 0xcb, 0xc5),
            border_strong: (0x9d, 0xae, 0xa7),
            text_normal: (0x17, 0x20, 0x1d),
            text_soft: (0x34, 0x44, 0x3f),
            text_muted: (0x60, 0x70, 0x6a),
            text_faint: (0x81, 0x91, 0x8a),
            text_on_accent: (0xf9, 0xfb, 0xf8),
            accent: (0x00, 0x7a, 0x4d),
            accent_alt: (0x00, 0x6f, 0x9e),
            warm: (0xa4, 0x66, 0x00),
            red: (0xc8, 0x32, 0x4c),
            orange: (0xb6, 0x58, 0x00),
            violet: (0x73, 0x57, 0xb8),
        },
    }
}

/// The active theme; the app holds one for the whole process.
pub struct Theme {
    mode: ThemeMode,
}

impl Theme {
    /// The mode currently in force.
    pub closed spec fn active_mode(&self) -> ThemeMode {
        self.mode
    }

    /// A theme in the default (dark) mode.
    pub fn new() -> (t: Self)
        ensures
            t.active_mode() == ThemeMode::Dark,
    {
        Theme { mode: ThemeMode::Dark }
    }

    /// Switch the active mode.
    pub fn set_mode(&mut self, mode: ThemeMode)
        ensures
            final(self).active_mode() == mode,
    {
        self.mode = mode;
    }

    /// The active mode.
    pub fn mode(&self) -> (m: ThemeMode)
        ensures
            m == self.active_mode(),
    {
        self.mode
    }

    /// The `bg_0` color of the active palette.
    pub fn bg_0(&self) -> (c: Rgb)
        ensures
            c == palette_of(self.active_mode()).bg_0,
    {
        palette(self.mode).bg_0
    }

    /// The `bg_1` color of the active palette.
    pub fn bg_1(&self) -> (c: Rgb)
        ensures
            c == palette_of(self.active_mode()).bg_1,
    {
        palette(self.mode).bg_1
    }

    /// The `bg_2` color of the active palette.
    pub fn bg_2(&self) -> (c: Rgb)
        ensures
            c == palette_of(self.active_mode()).bg_2,
    {
        palette(self.mode).bg_2
    }

    /// The `bg_3` color of the active palette.
    pub fn bg_3(&self) -> (c: Rgb)
        ensures
            c == palette_of(self.active_mode()).bg_3,
    {
        palette(self.mode).bg_3
    }

    /// The `bg_4` color of the active palette.
    pub fn bg_4(&self) -> (c: Rgb)
        ensures
            c == palette_of(self.active_mode()).bg_4,
    {
        palette(self.mode).bg_4
    }

    /// The `border` color of the active palette.
    pub fn border(&self) -> (c: Rgb)
        ensures
            c == palette_of(self.active_mode()).border,
    {
        palette(self.mode).border
    }

    /// The `border_strong` color of the active palette.
    pub fn border_strong(&self) -> (c: Rgb)
        ensures
            c == palette_of(self.active_mode()).border_strong,
    {
        palette(self.mode).border_strong
    }

    /// The `text_normal` color of the active palette.
    pub fn text_normal(&self) -> (c: Rgb)
        ensures
            c == palette_of(self.active_mode()).text_normal,
    {
        palette(self.mode).text_normal
    }

    /// The `text_soft` color of the active palette.
    pub fn text_soft(&self) -> (c: Rgb)
        ensures
            c == palette_of(self.active_mode()).text_soft,
    {
        palette(self.mode).text_soft
    }

    /// The `text_muted` color of the active palette.
    pub fn text_muted(&self) -> (c: Rgb)
        ensures
            c == palette_of(self.active_mode()).text_muted,
    {
        palette(self.mode).text_muted
    }

    /// The `text_faint` color of the active palette.
    pub fn text_faint(&self) -> (c: Rgb)
        ensures
            c == palette_of(self.active_mode()).text_faint,
    {
        palette(self.mode).text_faint
    }

    /// The `text_on_accent` color of the active palette.
    pub fn text_on_accent(&self) -> (c: Rgb)
        ensures
            c == palette_of(self.active_mode()).text_on_accent,
    {
        palette(self.mode).text_on_accent
    }

    /// The `accent` color of the active palette.
    pub fn accent(&self) -> (c: Rgb)
        ensures
            c == palette_of(self.active_mode()).accent,
    {
        palette(self.mode).accent
    }

    /// The `accent_alt` color of the active palette.
    pub fn accent_alt(&self) -> (c: Rgb)
        ensures
            c == palette_of(self.active_mode()).accent_alt,
    {
        palette(self.mode).accent_alt
    }

    /// The `warm` color of the active palette.
    pub fn warm(&self) -> (c: Rgb)
        ensures
            c == palette_of(self.active_mode()).warm,
    {
        palette(self.mode).warm
    }

    /// The `red` color of the active palette.
    pub fn red(&self) -> (c: Rgb)
        ensures
            c == palette_of(self.active_mode()).red,
    {
        palette(self.mode).red
    }

    /// The `orange` color of the active palette.
    pub fn orange(&self) -> (c: Rgb)
        ensures
            c == palette_of(self.active_mode()).orange,
    {
        palette(self.mode).orange
    }

    /// The `violet` color of the active palette.
    pub fn violet(&self) -> (c: Rgb)
        ensures
            c == palette_of(self.active_mode()).violet,
    {
        palette(self.mode).violet
    }
}

/// The theme a `theme` setting selects: light when it says `light` in any
/// ASCII case, dark for anything else.
pub open spec fn theme_mode_of(theme: Seq<char>) -> ThemeMode {
    if eq_ignore_ascii_case(theme, "light"@) {
        ThemeMode::Light
    } else {
        ThemeMode::Dark
    }
}

/// Resolve the configured theme into a `ThemeMode` (unknown means dark).
pub fn theme_mode_for(theme: &str) -> (m: ThemeMode)
    ensures
        m == theme_mode_of(theme@),
{
    if str_eq_ignore_ascii_case(theme, "light") {
        ThemeMode::Light
    } else {
        ThemeMode::Dark
    }
}

/// The `theme` setting after the settings window's theme toggle: `light`
/// unless the current setting already selects light.
pub fn toggled_theme_name(theme: &str) -> (next: &'static str)
    ensures
        next@ == if theme_mode_of(theme@) == ThemeMode::Light { "dark"@ } else { "light"@ },
{
    if str_eq_ignore_ascii_case(theme, "light") {
        "dark"
    } else {
        "light"
    }
}

/// Toggling the theme setting always switches the selected mode.
pub proof fn lemma_toggle_switches_mode(theme: Seq<char>)
    ensures
        theme_mode_of(if theme_mode_of(theme) == ThemeMode::Light { "dark"@ } else { "light"@ })
            != theme_mode_of(theme),
{
    reveal_strlit("dark");
    reveal_strlit("light");
    let l = crate::strings::ascii_lower_seq("light"@);
    let d = crate::strings::ascii_lower_seq("dark"@);
    assert(l[0] == 'l');
    assert(d.len() != l.len());
}

/// Lowercase hex digit of a value below 16.
pub open spec fn hex_digit_char(v: int) -> char {
    if v < 10 {
        ('0' as int + v) as char
    } else {
        ('a' as int + v - 10) as char
    }
}

/// Lowercase `#rrggbb` text of a color.
pub open spec fn hex_text(rgb: Rgb) -> Seq<char> {
    seq![
        '#',
        hex_digit_char(rgb.0 as int / 16), hex_digit_char(rgb.0 as int % 16),
        hex_digit_char(rgb.1 as int / 16), hex_digit_char(rgb.1 as int % 16),
        hex_digit_char(rgb.2 as int / 16), hex_digit_char(rgb.2 as int % 16),
    ]
}

fn hex_digit(v: u8) -> (c: char)
    requires
        v < 16,
    ensures
        c == hex_digit_char(v as int),
{
    if v < 10 {
        (48u8 + v) as char
    } else {
        (87u8 + v) as char
    }
}

/// Lowercase `#rrggbb` string (for the SVG icon renderer).
pub fn hex(rgb: Rgb) -> (s: String)
    ensures
        s@ == hex_text(rgb),
{
    let mut s = String::new();
    push_char(&mut s, '#');
    push_char(&mut s, hex_digit(rgb.0 / 16));
    push_char(&mut s, hex_digit(rgb.0 % 16));
    push_char(&mut s, hex_digit(rgb.1 / 16));
    push_char(&mut s, hex_digit(rgb.1 % 16));
    push_char(&mut s, hex_digit(rgb.2 / 16));
    push_char(&mut s, hex_digit(rgb.2 % 16));
    assert(s@ =~= hex_text(rgb));
    s
}

/// A lowercase hex digit reads back as its value.
pub proof fn lemma_hex_digit_round_trip(v: int)
    requires
        0 <= v < 16,
    ensures
        is_hex_digit(hex_digit_char(v)),
        hex_value(hex_digit_char(v)) == v,
{
}

/// The `#rrggbb` text of a color parses back to the same color.
pub proof fn lemma_hex_round_trip(rgb: Rgb)
    ensures
        parse_hex_spec(hex_text(rgb)) == Some(rgb),
{
    let t = hex_text(rgb);
    lemma_hex_digit_round_trip(rgb.0 as int / 16);
    lemma_hex_digit_round_trip(rgb.0 as int % 16);
    lemma_hex_digit_round_trip(rgb.1 as int / 16);
    lemma_hex_digit_round_trip(rgb.1 as int % 16);
    lemma_hex_digit_round_trip(rgb.2 as int / 16);
    lemma_hex_digit_round_trip(rgb.2 as int % 16);
    assert forall|i: int| 1 <= i < 7 implies is_hex_digit(#[trigger] t[i]) by {}
}

} // verus!
