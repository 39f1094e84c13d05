//! The settings window's state machine: what a click on one of its controls
//! or a key press does to the edited configuration, and which outside work
//! (folder dialog, auto-start, saving) it asks for.

use vstd::prelude::*;
use crate::config::ShortcutsConfig;
use crate::hotkey::{binding_from_key, recorded_binding, KeyInput, Modifiers};
use crate::strings::{lowercased, to_lowercase};
use crate::theme::{lemma_toggle_switches_mode, theme_mode_for, theme_mode_of, toggled_theme_name, ThemeMode};
use crate::toolbar_config::{toggled, ToolbarConfig};

verus! {

/// Actions produced by clicking a region of the settings window.
#[derive(Debug, Clone, Copy, PartialEq, Eq, Structural)]
pub enum Action {
    SelectColor(usize),
    ThicknessDown,
    ThicknessUp,
    BrowseDir,
    ToggleAutostart,
    ToggleHistory,
    ToggleTheme,
    ClickShortcut(usize),
    ClickHotkey,
    ToggleToolbar(usize),
    SaveClose,
    SwitchTab(usize),
}

/// Number of default-color swatches offered.
pub const COLOR_CHOICE_COUNT: usize = 5;

/// Name of default-color swatch `i`.
pub open spec fn color_choice_name(i: int) -> Seq<char> {
    if i == 0 {
        "red"@
    } else if i == 1 {
        "blue"@
    } else if i == 2 {
        "green"@
    } else if i == 3 {
        "yellow"@
    } else {
        "mauve"@
    }
}

/// Swatch color of default-color choice `i`.
pub open spec fn color_choice_rgb(i: int) -> (u8, u8, u8) {
    if i == 0 {
        (0xff, 0x6e, 0x7a)
    } else if i == 1 {
        (0x6b, 0xdc, 0xff)
    } else if i == 2 {
        (0x63, 0xf2, 0xab)
    } else if i == 3 {
        (0xf0, 0xc6, 0x74)
    } else {
        (0xb7, 0x8c, 0xff)
    }
}

/// Default-color swatch `i`: its name and its color.
pub fn color_choice(i: usize) -> (choice: (&'static str, u8, u8, u8))
    requires
        i < COLOR_CHOICE_COUNT,
    ensures
        choice.0@ == color_choice_name(i as int),
        (choice.1, choice.2, choice.3) == color_choice_rgb(i as int),
{
    match i {
        0 => ("red", 0xff, 0x6e, 0x7a),
        1 => ("blue", 0x6b, 0xdc, 0xff),
        2 => ("green", 0x63, 0xf2, 0xab),
        3 => ("yellow", 0xf0, 0xc6, 0x74),
        _ => ("mauve", 0xb7, 0x8c, 0xff),
    }
}

/// Direction of a thickness step.
#[derive(Debug, Clone, Copy, PartialEq, Eq, Structural)]
pub enum ThicknessStep {
    Down,
    Up,
}

/// Outside work an action asks for.
#[derive(Debug, Clone, Copy, PartialEq, Eq, Structural)]
pub enum SettingsEffect {
    Nothing,
    /// Step the default thickness.
    StepThickness(ThicknessStep),
    /// Open the folder picker in the background.
    StartBrowse,
    /// Flip the auto-start registration.
    ToggleAutostart,
    /// Switch the running UI to this theme.
    ApplyTheme(ThemeMode),
    /// Save the configuration and close the window.
    SaveAndClose,
}

/// A key press in the settings window.
pub enum SettingsKey {
    Escape,
    Key(KeyInput),
}

/// The part of the configuration edited in the settings window, with the
/// window's editing state.
pub struct SettingsState {
    pub default_color: String,
    pub history_enabled: bool,
    pub theme: String,
    pub save_directory: String,
    /// The global capture hotkey binding.
    pub hotkey: String,
    pub shortcuts: ShortcutsConfig,
    pub toolbar: ToolbarConfig,
    /// Index of the tool shortcut being rebound.
    pub editing_shortcut: Option<usize>,
    /// Waiting for a new global hotkey combination.
    pub editing_hotkey: bool,
    /// Active tab: 0 general, 1 shortcuts, 2 toolbar.
    pub active_tab: usize,
    pub needs_redraw: bool,
    /// A folder picker is open.
    pub browse_pending: bool,
}

/// The settings state as plain values.
pub struct SettingsView {
    pub default_color: Seq<char>,
    pub history_enabled: bool,
    pub theme: Seq<char>,
    pub save_directory: Seq<char>,
    pub hotkey: Seq<char>,
    pub toolbar: ToolbarConfig,
    pub editing_shortcut: Option<usize>,
    pub editing_hotkey: bool,
    pub active_tab: usize,
    pub needs_redraw: bool,
    pub browse_pending: bool,
}

impl View for SettingsState {
    type V = SettingsView;

    open spec fn view(&self) -> SettingsView {
        SettingsView {
            default_color: self.default_color@,
            history_enabled: self.history_enabled,
            theme: self.theme@,
            save_directory: self.save_directory@,
            hotkey: self.hotkey@,
            toolbar: self.toolbar,
            editing_shortcut: self.editing_shortcut,
            editing_hotkey: self.editing_hotkey,
            active_tab: self.active_tab,
            needs_redraw: self.needs_redraw,
            browse_pending: self.browse_pending,
        }
    }
}

/// The theme setting after a toggle.
pub open spec fn next_theme(theme: Seq<char>) -> Seq<char> {
    if theme_mode_of(theme) == ThemeMode::Light { "dark"@ } else { "light"@ }
}

/// The state after `action`, and the outside work it asks for.
pub open spec fn apply_action(v: SettingsView, action: Action) -> (SettingsView, SettingsEffect) {
    match action {
        Action::SelectColor(i) => if i < COLOR_CHOICE_COUNT {
            (SettingsView { default_color: color_choice_name(i as int), needs_redraw: true, ..v }, SettingsEffect::Nothing)
        } else {
            (v, SettingsEffect::Nothing)
        },
        Action::ThicknessDown => (SettingsView { needs_redraw: true, ..v }, SettingsEffect::StepThickness(ThicknessStep::Down)),
        Action::ThicknessUp => (SettingsView { needs_redraw: true, ..v }, SettingsEffect::StepThickness(ThicknessStep::Up)),
        Action::BrowseDir => if v.browse_pending {
            (v, SettingsEffect::Nothing)
        } else {
            (SettingsView { browse_pending: true, ..v }, SettingsEffect::StartBrowse)
        },
        Action::ToggleHistory => (SettingsView { history_enabled: !v.history_enabled, needs_redraw: true, ..v }, SettingsEffect::Nothing),
        Action::ToggleTheme => (
            SettingsView { theme: next_theme(v.theme), needs_redraw: true, ..v },
            SettingsEffect::ApplyTheme(theme_mode_of(next_theme(v.theme))),
        ),
        Action::ClickHotkey => (
            SettingsView { editing_hotkey: true, editing_shortcut: None, needs_redraw: true, ..v },
            SettingsEffect::Nothing,
        ),
        Action::ToggleAutostart => (SettingsView { needs_redraw: true, ..v }, SettingsEffect::ToggleAutostart),
        Action::ClickShortcut(i) => (SettingsView { editing_shortcut: Some(i), needs_redraw: true, ..v }, SettingsEffect::Nothing),
        Action::ToggleToolbar(i) => (
            SettingsView { toolbar: toggled(v.toolbar, i), needs_redraw: true, ..v },
            SettingsEffect::Nothing,
        ),
        Action::SaveClose => (v, SettingsEffect::SaveAndClose),
        Action::SwitchTab(i) => (
            SettingsView { active_tab: i, editing_shortcut: None, editing_hotkey: false, needs_redraw: true, ..v },
            SettingsEffect::Nothing,
        ),
    }
}

/// The state after key text `key` is pressed, and whether a shortcut was
/// being rebound (the key was consumed).
pub open spec fn key_press(v: SettingsView) -> (SettingsView, bool) {
    match v.editing_shortcut {
        Some(idx) => (SettingsView { editing_shortcut: None, needs_redraw: true, ..v }, true),
        None => (v, false),
    }
}

/// The tool shortcuts after key text `key` is pressed while shortcut
/// `editing` (if any) is being rebound: the key becomes that shortcut,
/// unless it is empty.
pub open spec fn rebound(keys: Seq<Seq<char>>, editing: Option<usize>, key: Seq<char>) -> Seq<Seq<char>> {
    match editing {
        Some(idx) => if key.len() > 0 && idx < keys.len() { keys.update(idx as int, key) } else { keys },
        None => keys,
    }
}

/// The tool shortcuts after a key press: a text key pressed while a
/// shortcut is being rebound (and no hotkey is being recorded) becomes that
/// shortcut, lowercased.
pub open spec fn key_shortcuts(keys: Seq<Seq<char>>, v: SettingsView, key: SettingsKey) -> Seq<Seq<char>> {
    match key {
        SettingsKey::Key(KeyInput::Character(ch)) => if v.editing_hotkey {
            keys
        } else {
            rebound(keys, v.editing_shortcut, lowercased(ch@))
        },
        _ => keys,
    }
}

/// The state after a key press, and whether the window closes (without
/// saving). While a hotkey is being recorded, Escape cancels and a key with
/// a modifier becomes the new binding; while a shortcut is being rebound, a
/// text key becomes the new (lowercase) shortcut and Escape cancels;
/// otherwise Escape closes the window.
pub open spec fn settings_key(v: SettingsView, key: SettingsKey, mods: Modifiers) -> (SettingsView, bool) {
    if v.editing_hotkey {
        match key {
            SettingsKey::Escape => (SettingsView { editing_hotkey: false, needs_redraw: true, ..v }, false),
            SettingsKey::Key(k) => match recorded_binding(mods, k) {
                Some(b) => (SettingsView { hotkey: b, editing_hotkey: false, needs_redraw: true, ..v }, false),
                None => (v, false),
            },
        }
    } else if v.editing_shortcut is Some {
        match key {
            SettingsKey::Escape => (SettingsView { editing_shortcut: None, needs_redraw: true, ..v }, false),
            SettingsKey::Key(KeyInput::Character(ch)) => (key_press(v).0, false),
            _ => (v, false),
        }
    } else {
        match key {
            SettingsKey::Escape => (v, true),
            _ => (v, false),
        }
    }
}

/// Only the Save button closes the window through an action.
pub proof fn lemma_only_save_closes(v: SettingsView, action: Action)
    ensures
        (apply_action(v, action).1 == SettingsEffect::SaveAndClose) <==> (action == Action::SaveClose),
{
}

/// Switching tabs abandons any rebinding in progress.
pub proof fn lemma_switch_tab_cancels_editing(v: SettingsView, tab: usize)
    ensures
        apply_action(v, Action::SwitchTab(tab)).0.editing_shortcut is None,
        !apply_action(v, Action::SwitchTab(tab)).0.editing_hotkey,
        apply_action(v, Action::SwitchTab(tab)).0.active_tab == tab,
{
}

/// The theme toggle switches the applied theme every time, so two toggles
/// return to the mode the setting started in.
pub proof fn lemma_theme_toggle_alternates(v: SettingsView)
    ensures
        apply_action(v, Action::ToggleTheme).1 != SettingsEffect::ApplyTheme(theme_mode_of(v.theme)),
        ({
            let once = apply_action(v, Action::ToggleTheme).0;
            apply_action(once, Action::ToggleTheme).1 == SettingsEffect::ApplyTheme(theme_mode_of(v.theme))
        }),
{
    lemma_toggle_switches_mode(v.theme);
    lemma_toggle_switches_mode(next_theme(v.theme));
}

impl SettingsState {
    /// Carry out `action`; the effect names the outside work still to do.
    #[verifier::rlimit(40)]
    #[verifier::spinoff_prover]
    pub fn handle_action(&mut self, action: Action) -> (effect: SettingsEffect)
        ensures
            (final(self)@, effect) == apply_action(old(self)@, action),
            final(self).shortcuts.keys() == old(self).shortcuts.keys(),
    {
        match action {
            Action::SelectColor(i) => {
                if i < COLOR_CHOICE_COUNT {
                    let (name, _, _, _) = color_choice(i);
                    self.default_color = String::from_str(name);
                    self.needs_redraw = true;
                }
                SettingsEffect::Nothing
            },
            Action::ThicknessDown => {
                self.needs_redraw = true;
                SettingsEffect::StepThickness(ThicknessStep::Down)
            },
            Action::ThicknessUp => {
                self.needs_redraw = true;
                SettingsEffect::StepThickness(ThicknessStep::Up)
            },
            Action::BrowseDir => {
                if self.browse_pending {
                    SettingsEffect::Nothing
                } else {
                    self.browse_pending = true;
                    SettingsEffect::StartBrowse
                }
            },
            Action::ToggleHistory => {
                self.history_enabled = !self.history_enabled;
                self.needs_redraw = true;
                SettingsEffect::Nothing
            },
            Action::ToggleTheme => {
                let next = toggled_theme_name(self.theme.as_str());
                self.theme = String::from_str(next);
                self.needs_redraw = true;
                SettingsEffect::ApplyTheme(theme_mode_for(next))
            },
            Action::ClickHotkey => {
                self.editing_hotkey = true;
                self.editing_shortcut = None;
                self.needs_redraw = true;
                SettingsEffect::Nothing
            },
            Action::ToggleAutostart => {
                self.needs_redraw = true;
                SettingsEffect::ToggleAutostart
            },
            Action::ClickShortcut(i) => {
                self.editing_shortcut = Some(i);
                self.needs_redraw = true;
                SettingsEffect::Nothing
            },
            Action::ToggleToolbar(i) => {
                self.toolbar.toggle_by_index(i);
                self.needs_redraw = true;
                SettingsEffect::Nothing
            },
            Action::SaveClose => SettingsEffect::SaveAndClose,
            Action::SwitchTab(i) => {
                self.active_tab = i;
                self.editing_shortcut = None;
                self.editing_hotkey = false;
                self.needs_redraw = true;
                SettingsEffect::Nothing
            },
        }
    }

    /// Key text pressed while a shortcut is being rebound: it becomes the
    /// shortcut (unless empty). Returns whether the key was consumed.
    pub fn on_key_press(&mut self, key: &str) -> (consumed: bool)
        ensures
            (final(self)@, consumed) == key_press(old(self)@),
            final(self).shortcuts.keys() == rebound(old(self).shortcuts.keys(), old(self).editing_shortcut, key@),
    {
        let editing = self.editing_shortcut;
        match editing {
            Some(idx) => {
                if key.unicode_len() > 0 {
                    self.shortcuts.set_by_index(idx, String::from_str(key));
                }
                self.editing_shortcut = None;
                self.needs_redraw = true;
                true
            },
            None => false,
        }
    }

    /// Handle a key press; returns whether the window closes without saving.
    pub fn on_key(&mut self, key: &SettingsKey, mods: Modifiers) -> (close: bool)
        ensures
            (final(self)@, close) == settings_key(old(self)@, *key, mods),
            final(self).shortcuts.keys() == key_shortcuts(old(self).shortcuts.keys(), old(self)@, *key),
    {
        if self.editing_hotkey {
            match key {
                SettingsKey::Escape => {
                    self.editing_hotkey = false;
                    self.needs_redraw = true;
                },
                SettingsKey::Key(k) => {
                    if let Some(binding) = binding_from_key(mods, k) {
                        self.hotkey = binding;
                        self.editing_hotkey = false;
                        self.needs_redraw = true;
                    }
                },
            }
            return false;
        }
        if self.editing_shortcut.is_some() {
            match key {
                SettingsKey::Escape => {
                    self.editing_shortcut = None;
                    self.needs_redraw = true;
                },
                SettingsKey::Key(KeyInput::Character(ch)) => {
                    let lower = to_lowercase(ch.as_str());
                    self.on_key_press(lower.as_str());
                },
                _ => {},
            }
            return false;
        }
        match key {
            SettingsKey::Escape => true,
            _ => false,
        }
    }

    /// The folder picker finished: a chosen folder becomes the save
    /// directory. Returns whether the directory changed.
    pub fn finish_browse(&mut self, picked: Option<String>) -> (changed: bool)
        ensures
            changed == picked is Some,
            final(self)@ == (match picked {
                Some(dir) => SettingsView { save_directory: dir@, browse_pending: false, needs_redraw: true, ..old(self)@ },
                None => SettingsView { browse_pending: false, ..old(self)@ },
            }),
            final(self).shortcuts.keys() == old(self).shortcuts.keys(),
    {
        self.browse_pending = false;
        match picked {
            Some(dir) => {
                self.save_directory = dir;
                self.needs_redraw = true;
                true
            },
            None => false,
        }
    }
}

} // verus!
