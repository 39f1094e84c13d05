use hydroshot::config::ShortcutsConfig;
use hydroshot::overlay::{
    countdown_step, fold_newlines, hitzone_to_cursor, overlay_key_command, size_label, CountdownStep,
    CursorShape, KeyCommand, KeyContext, OverlayKey,
};
use hydroshot::selection::HitZone;
use hydroshot::tools::ToolKind;

fn ctx() -> KeyContext {
    KeyContext {
        text_input_active: false,
        ctrl: false,
        shift: false,
        has_selected_annotation: false,
        has_selection: true,
    }
}

fn ch(s: &str) -> OverlayKey {
    OverlayKey::Character(s.to_string())
}

#[test]
fn ctrl_chords() {
    let s = ShortcutsConfig::default();
    let c = KeyContext { ctrl: true, ..ctx() };
    assert_eq!(overlay_key_command(c, &ch("c"), &s), KeyCommand::Copy);
    assert_eq!(overlay_key_command(c, &ch("S"), &s), KeyCommand::Save);
    assert_eq!(overlay_key_command(c, &ch("z"), &s), KeyCommand::Undo);
    assert_eq!(overlay_key_command(KeyContext { shift: true, ..c }, &ch("Z"), &s), KeyCommand::Redo);
    assert_eq!(overlay_key_command(c, &ch("a"), &s), KeyCommand::SelectAll);
    assert_eq!(overlay_key_command(c, &ch("q"), &s), KeyCommand::Ignore);
}

#[test]
fn tool_shortcuts_ignore_case() {
    let s = ShortcutsConfig::default();
    assert_eq!(overlay_key_command(ctx(), &ch("R"), &s), KeyCommand::SwitchTool(ToolKind::Rectangle));
    assert_eq!(overlay_key_command(ctx(), &ch("n"), &s), KeyCommand::SwitchTool(ToolKind::StepMarker));
    assert_eq!(overlay_key_command(ctx(), &ch("9"), &s), KeyCommand::Ignore);
}

#[test]
fn escape_deselects_before_closing() {
    let s = ShortcutsConfig::default();
    let selected = KeyContext { has_selected_annotation: true, ..ctx() };
    assert_eq!(overlay_key_command(selected, &OverlayKey::Escape, &s), KeyCommand::Deselect);
    assert_eq!(overlay_key_command(ctx(), &OverlayKey::Escape, &s), KeyCommand::CloseOverlay);
}

#[test]
fn delete_and_enter() {
    let s = ShortcutsConfig::default();
    let selected = KeyContext { has_selected_annotation: true, ..ctx() };
    assert_eq!(overlay_key_command(selected, &OverlayKey::Delete, &s), KeyCommand::DeleteSelected);
    assert_eq!(overlay_key_command(selected, &OverlayKey::Backspace, &s), KeyCommand::DeleteSelected);
    assert_eq!(overlay_key_command(ctx(), &OverlayKey::Delete, &s), KeyCommand::Ignore);
    assert_eq!(overlay_key_command(ctx(), &OverlayKey::Enter, &s), KeyCommand::QuickCopy);
    let none = KeyContext { has_selection: false, ..ctx() };
    assert_eq!(overlay_key_command(none, &OverlayKey::Enter, &s), KeyCommand::Ignore);
}

#[test]
fn typing_captures_every_key() {
    let s = ShortcutsConfig::default();
    let t = KeyContext { text_input_active: true, ..ctx() };
    assert_eq!(overlay_key_command(t, &ch("r"), &s), KeyCommand::InsertText);
    assert_eq!(overlay_key_command(t, &OverlayKey::Space, &s), KeyCommand::InsertSpace);
    assert_eq!(overlay_key_command(t, &OverlayKey::Backspace, &s), KeyCommand::DeleteLastChar);
    assert_eq!(overlay_key_command(t, &OverlayKey::Enter, &s), KeyCommand::CommitText);
    assert_eq!(overlay_key_command(t, &OverlayKey::Escape, &s), KeyCommand::CancelText);
    assert_eq!(overlay_key_command(t, &OverlayKey::Delete, &s), KeyCommand::Ignore);
    let tc = KeyContext { ctrl: true, ..t };
    assert_eq!(overlay_key_command(tc, &ch("V"), &s), KeyCommand::PasteText);
    assert_eq!(overlay_key_command(tc, &ch("c"), &s), KeyCommand::Ignore);
}

#[test]
fn pasted_text_is_one_line() {
    assert_eq!(fold_newlines("a\r\nb\nc"), "a  b c");
    assert_eq!(fold_newlines("plain"), "plain");
}

#[test]
fn cursor_for_zones() {
    assert_eq!(hitzone_to_cursor(HitZone::TopLeft, ToolKind::Select), CursorShape::NwseResize);
    assert_eq!(hitzone_to_cursor(HitZone::BottomLeft, ToolKind::Select), CursorShape::NeswResize);
    assert_eq!(hitzone_to_cursor(HitZone::Top, ToolKind::Arrow), CursorShape::NsResize);
    assert_eq!(hitzone_to_cursor(HitZone::Right, ToolKind::Arrow), CursorShape::EwResize);
    assert_eq!(hitzone_to_cursor(HitZone::Inside, ToolKind::Select), CursorShape::Default);
    assert_eq!(hitzone_to_cursor(HitZone::Inside, ToolKind::Text), CursorShape::Text);
    assert_eq!(hitzone_to_cursor(HitZone::Inside, ToolKind::StepMarker), CursorShape::Cell);
    assert_eq!(hitzone_to_cursor(HitZone::Inside, ToolKind::Pixelate), CursorShape::Crosshair);
}

#[test]
fn size_label_text() {
    assert_eq!(size_label(1920, 1080), "1920 \u{00D7} 1080");
    assert_eq!(size_label(0, 7), "0 \u{00D7} 7");
}

#[test]
fn countdown_counts_down_then_fires() {
    assert_eq!(countdown_step(3, false), CountdownStep::Wait);
    assert_eq!(countdown_step(3, true), CountdownStep::Tick(2));
    assert_eq!(countdown_step(2, true), CountdownStep::Tick(1));
    assert_eq!(countdown_step(1, true), CountdownStep::Fire);
    assert_eq!(countdown_step(0, true), CountdownStep::Fire);
}

#[test]
fn countdown_fires_after_its_seconds() {
    let start: u32 = 5;
    let mut remaining = start;
    let mut ticks = 0;
    let checks = [false, true, false, false, true, true, false, true, true];
    let mut fired_at = None;
    for (n, &elapsed) in checks.iter().enumerate() {
        match countdown_step(remaining, elapsed) {
            CountdownStep::Wait => assert!(!elapsed),
            CountdownStep::Tick(left) => {
                ticks += 1;
                assert_eq!(left, start - ticks);
                remaining = left;
            }
            CountdownStep::Fire => {
                fired_at = Some(n);
                break;
            }
        }
    }
    assert_eq!(ticks, 4);
    assert_eq!(fired_at, Some(8));
}
