use hydroshot::config::{parse_hex_rgb, resolve_color_name, ColorChoice, HotkeyConfig, ShortcutsConfig};
use hydroshot::theme::{theme_mode_for, ThemeMode};
use hydroshot::tools::ToolKind;

#[test]
fn parse_color_valid() {
    assert_eq!(resolve_color_name("blue"), ColorChoice::Blue);
    assert_eq!(resolve_color_name("green"), ColorChoice::Green);
    assert_eq!(resolve_color_name("yellow"), ColorChoice::Yellow);
    assert_eq!(resolve_color_name("white"), ColorChoice::White);
    assert_eq!(resolve_color_name("red"), ColorChoice::Red);
}

#[test]
fn parse_color_invalid_falls_back_to_red() {
    assert_eq!(resolve_color_name("magenta"), ColorChoice::Red);
    assert_eq!(resolve_color_name(""), ColorChoice::Red);
}

#[test]
fn parse_color_hex() {
    assert_eq!(resolve_color_name("#6bdcff"), ColorChoice::Rgb(0x6b, 0xdc, 0xff));

    // Malformed hex falls back to red
    assert_eq!(resolve_color_name("#zzzzzz"), ColorChoice::Red);
    assert_eq!(resolve_color_name("#fff"), ColorChoice::Red);
}

#[test]
fn theme_defaults_to_dark() {
    assert_eq!(theme_mode_for("dark"), ThemeMode::Dark);
}

#[test]
fn theme_mode_parses_light_case_insensitively() {
    assert_eq!(theme_mode_for("Light"), ThemeMode::Light);
    assert_eq!(theme_mode_for("garbage"), ThemeMode::Dark);
}

#[test]
fn named_palette_colors_resolve() {
    assert_eq!(resolve_color_name("mauve"), ColorChoice::Mauve);
    assert_eq!(resolve_color_name("peach"), ColorChoice::Peach);
    assert_eq!(resolve_color_name("teal"), ColorChoice::Teal);
    assert_eq!(resolve_color_name("sky"), ColorChoice::Sky);
    assert_eq!(resolve_color_name("lavender"), ColorChoice::Lavender);
    // Names are exact: no case folding.
    assert_eq!(resolve_color_name("Blue"), ColorChoice::Red);
}

#[test]
fn hex_parsing_accepts_both_cases() {
    assert_eq!(parse_hex_rgb("#A0b1C2"), Some((0xa0, 0xb1, 0xc2)));
    assert_eq!(parse_hex_rgb("a0b1c2"), None);
    assert_eq!(parse_hex_rgb("#a0b1c2d"), None);
    assert_eq!(parse_hex_rgb("#a0b1cg"), None);
}

#[test]
fn default_hotkey_is_ctrl_shift_s() {
    assert_eq!(HotkeyConfig::default().capture, "Ctrl+Shift+S");
}

#[test]
fn default_shortcuts_switch_tools() {
    let s = ShortcutsConfig::default();
    assert_eq!(s.tool_for_key("v"), Some(ToolKind::Select));
    assert_eq!(s.tool_for_key("A"), Some(ToolKind::Arrow));
    assert_eq!(s.tool_for_key("o"), Some(ToolKind::RoundedRect));
    assert_eq!(s.tool_for_key("m"), Some(ToolKind::Measurement));
    assert_eq!(s.tool_for_key("z"), None);
}

#[test]
fn rebinding_a_shortcut_moves_the_tool() {
    let mut s = ShortcutsConfig::default();
    s.set_by_index(1, "q".to_string());
    assert_eq!(s.arrow, "q");
    assert_eq!(s.tool_for_key("q"), Some(ToolKind::Arrow));
    assert_eq!(s.tool_for_key("a"), None);
    // Indices past the tools are ignored.
    s.set_by_index(14, "x".to_string());
    assert_eq!(s.tool_for_key("x"), None);
}

#[test]
fn shortcut_entries_list_every_tool() {
    let s = ShortcutsConfig::default();
    let e = s.entries();
    assert_eq!(e.len(), 14);
    assert_eq!(e[0].1, "Select / Move");
    assert_eq!(e[0].2, "v");
    assert_eq!(e[13].2, "m");
}

#[test]
fn first_matching_tool_wins() {
    let mut s = ShortcutsConfig::default();
    s.set_by_index(2, "v".to_string());
    assert_eq!(s.tool_for_key("v"), Some(ToolKind::Select));
}
