use hydroshot::config::parse_hex_rgb;
use hydroshot::theme::{hex, palette, theme_mode_for, toggled_theme_name, Theme, ThemeMode};

#[test]
fn dark_and_light_differ_and_match_spec() {
    let mut theme = Theme::new();
    theme.set_mode(ThemeMode::Dark);
    assert_eq!(theme.accent(), (0x63, 0xf2, 0xab));
    assert_eq!(theme.bg_0(), (0x09, 0x0c, 0x0d));
    assert_eq!(theme.text_normal(), (0xdc, 0xe4, 0xdf));

    theme.set_mode(ThemeMode::Light);
    assert_eq!(theme.accent(), (0x00, 0x7a, 0x4d));
    assert_eq!(theme.bg_0(), (0xf5, 0xf7, 0xf4));
    assert_eq!(theme.text_normal(), (0x17, 0x20, 0x1d));

    theme.set_mode(ThemeMode::Dark);
}

#[test]
fn hex_formats_lowercase_six_digits() {
    assert_eq!(hex((0x63, 0xf2, 0xab)), "#63f2ab");
}

#[test]
fn hex_pads_small_channels() {
    assert_eq!(hex((0x00, 0x0a, 0xff)), "#000aff");
}

#[test]
fn hex_text_parses_back() {
    for rgb in [(0x63, 0xf2, 0xab), (0, 0, 0), (255, 255, 255), (0x12, 0x9a, 0x0f)] {
        assert_eq!(parse_hex_rgb(&hex(rgb)), Some(rgb));
    }
}

#[test]
fn new_theme_is_dark_and_mode_reads_back() {
    let mut theme = Theme::new();
    assert_eq!(theme.mode(), ThemeMode::Dark);
    theme.set_mode(ThemeMode::Light);
    assert_eq!(theme.mode(), ThemeMode::Light);
}

#[test]
fn palette_tokens_follow_mode() {
    let mut theme = Theme::new();
    theme.set_mode(ThemeMode::Light);
    assert_eq!(theme.accent_alt(), palette(ThemeMode::Light).accent_alt);
    assert_eq!(theme.red(), palette(ThemeMode::Light).red);
    assert_ne!(palette(ThemeMode::Light).bg_0, palette(ThemeMode::Dark).bg_0);
}

#[test]
fn toggling_theme_switches_mode() {
    assert_eq!(toggled_theme_name("dark"), "light");
    assert_eq!(toggled_theme_name("LIGHT"), "dark");
    assert_eq!(toggled_theme_name("garbage"), "light");
    for name in ["dark", "light", "Light", "x"] {
        assert_ne!(theme_mode_for(toggled_theme_name(name)), theme_mode_for(name));
    }
}
