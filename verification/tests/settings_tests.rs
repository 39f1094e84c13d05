use hydroshot::config::ShortcutsConfig;
use hydroshot::hotkey::{KeyInput, Modifiers};
use hydroshot::settings::{
    color_choice, Action, SettingsEffect, SettingsKey, SettingsState, ThicknessStep,
};
use hydroshot::theme::ThemeMode;
use hydroshot::toolbar_config::ToolbarConfig;

fn state() -> SettingsState {
    SettingsState {
        default_color: "red".to_string(),
        history_enabled: true,
        theme: "dark".to_string(),
        save_directory: String::new(),
        hotkey: "Ctrl+Shift+S".to_string(),
        shortcuts: ShortcutsConfig::default(),
        toolbar: ToolbarConfig::default(),
        editing_shortcut: None,
        editing_hotkey: false,
        active_tab: 0,
        needs_redraw: false,
        browse_pending: false,
    }
}

#[test]
fn color_swatches() {
    assert_eq!(color_choice(0), ("red", 0xff, 0x6e, 0x7a));
    assert_eq!(color_choice(4), ("mauve", 0xb7, 0x8c, 0xff));
    let mut s = state();
    assert_eq!(s.handle_action(Action::SelectColor(1)), SettingsEffect::Nothing);
    assert_eq!(s.default_color, "blue");
    assert!(s.needs_redraw);
    let mut s = state();
    s.handle_action(Action::SelectColor(9));
    assert_eq!(s.default_color, "red");
    assert!(!s.needs_redraw);
}

#[test]
fn effects_for_outside_work() {
    let mut s = state();
    assert_eq!(s.handle_action(Action::ThicknessUp), SettingsEffect::StepThickness(ThicknessStep::Up));
    assert_eq!(s.handle_action(Action::ThicknessDown), SettingsEffect::StepThickness(ThicknessStep::Down));
    assert_eq!(s.handle_action(Action::ToggleAutostart), SettingsEffect::ToggleAutostart);
    assert_eq!(s.handle_action(Action::SaveClose), SettingsEffect::SaveAndClose);
}

#[test]
fn browse_starts_once() {
    let mut s = state();
    assert_eq!(s.handle_action(Action::BrowseDir), SettingsEffect::StartBrowse);
    assert_eq!(s.handle_action(Action::BrowseDir), SettingsEffect::Nothing);
    assert!(s.finish_browse(Some("/tmp/shots".to_string())));
    assert_eq!(s.save_directory, "/tmp/shots");
    assert!(!s.browse_pending);
    assert_eq!(s.handle_action(Action::BrowseDir), SettingsEffect::StartBrowse);
    assert!(!s.finish_browse(None));
    assert_eq!(s.save_directory, "/tmp/shots");
}

#[test]
fn theme_toggle_alternates() {
    let mut s = state();
    assert_eq!(s.handle_action(Action::ToggleTheme), SettingsEffect::ApplyTheme(ThemeMode::Light));
    assert_eq!(s.theme, "light");
    assert_eq!(s.handle_action(Action::ToggleTheme), SettingsEffect::ApplyTheme(ThemeMode::Dark));
    assert_eq!(s.theme, "dark");
}

#[test]
fn toggles_and_tabs() {
    let mut s = state();
    s.handle_action(Action::ToggleHistory);
    assert!(!s.history_enabled);
    s.handle_action(Action::ToggleToolbar(3));
    assert!(!s.toolbar.circle);
    s.handle_action(Action::ClickShortcut(2));
    assert_eq!(s.editing_shortcut, Some(2));
    s.handle_action(Action::SwitchTab(1));
    assert_eq!(s.active_tab, 1);
    assert_eq!(s.editing_shortcut, None);
    s.handle_action(Action::ClickHotkey);
    assert!(s.editing_hotkey);
}

#[test]
fn rebinding_a_shortcut_by_key() {
    let mut s = state();
    assert!(!s.on_key_press("x"));
    s.handle_action(Action::ClickShortcut(1));
    assert!(!s.on_key(&SettingsKey::Key(KeyInput::Character("Q".to_string())), Modifiers::empty()));
    assert_eq!(s.shortcuts.arrow, "q");
    assert_eq!(s.editing_shortcut, None);
    s.handle_action(Action::ClickShortcut(1));
    assert!(s.on_key_press(""));
    assert_eq!(s.shortcuts.arrow, "q");
}

#[test]
fn recording_the_hotkey() {
    let mut s = state();
    s.handle_action(Action::ClickHotkey);
    // A bare key keeps waiting.
    assert!(!s.on_key(&SettingsKey::Key(KeyInput::Character("k".to_string())), Modifiers::empty()));
    assert!(s.editing_hotkey);
    let mods = Modifiers { ctrl: true, shift: false, alt: true, super_key: false };
    s.on_key(&SettingsKey::Key(KeyInput::Character("k".to_string())), mods);
    assert_eq!(s.hotkey, "Ctrl+Alt+K");
    assert!(!s.editing_hotkey);
    s.handle_action(Action::ClickHotkey);
    s.on_key(&SettingsKey::Escape, Modifiers::empty());
    assert!(!s.editing_hotkey);
    assert_eq!(s.hotkey, "Ctrl+Alt+K");
}

#[test]
fn escape_closes_when_idle() {
    let mut s = state();
    assert!(s.on_key(&SettingsKey::Escape, Modifiers::empty()));
    s.handle_action(Action::ClickShortcut(0));
    assert!(!s.on_key(&SettingsKey::Escape, Modifiers::empty()));
    assert_eq!(s.editing_shortcut, None);
    assert_eq!(s.shortcuts.select, "v");
}
