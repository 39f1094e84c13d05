//! Decisions of the capture overlay that do not depend on geometry: what a
//! key press does, which cursor a selection zone shows, and the clipboard
//! text folding used when pasting into a text annotation.

use vstd::prelude::*;
use crate::config::ShortcutsConfig;
use crate::config::tool_bound_from;
use crate::selection::HitZone;
use crate::strings::{decimal, eq_ignore_ascii_case, lowercased, push_char, push_decimal, str_eq, str_eq_ignore_ascii_case, to_lowercase};
use crate::tools::ToolKind;

verus! {

/// A key press as the overlay sees it.
pub enum OverlayKey {
    /// A key that produces text.
    Character(String),
    Space,
    Backspace,
    Delete,
    Enter,
    Escape,
    /// Any other named key.
    Other,
}

/// The overlay state a key press is judged against.
#[derive(Debug, Clone, Copy, PartialEq, Eq, Structural)]
pub struct KeyContext {
    /// A text annotation is being typed.
    pub text_input_active: bool,
    pub ctrl: bool,
    pub shift: bool,
    /// An annotation is selected.
    pub has_selected_annotation: bool,
    /// A capture region is selected.
    pub has_selection: bool,
}

/// What the overlay does in response to a key press.
#[derive(Debug, Clone, Copy, PartialEq, Eq, Structural)]
pub enum KeyCommand {
    /// Paste clipboard text into the text being typed.
    PasteText,
    /// Append the key's text to the text being typed.
    InsertText,
    InsertSpace,
    /// Remove the last character of the text being typed.
    DeleteLastChar,
    /// Finish the text annotation.
    CommitText,
    /// Abandon the text annotation.
    CancelText,
    /// Clear the annotation selection.
    Deselect,
    CloseOverlay,
    /// Delete the selected annotation.
    DeleteSelected,
    /// Copy the selection (annotations included) to the clipboard.
    QuickCopy,
    Copy,
    Save,
    Undo,
    Redo,
    /// Select the whole screen.
    SelectAll,
    SwitchTool(ToolKind),
    Ignore,
}

/// Key handling while a text annotation is being typed: every key is
/// consumed; Ctrl+V pastes, other Ctrl chords are swallowed.
pub open spec fn text_key_command(ctrl: bool, key: OverlayKey) -> KeyCommand {
    match key {
        OverlayKey::Character(ch) => if ctrl && eq_ignore_ascii_case(ch@, "v"@) {
            KeyCommand::PasteText
        } else if ctrl {
            KeyCommand::Ignore
        } else {
            KeyCommand::InsertText
        },
        OverlayKey::Space => KeyCommand::InsertSpace,
        OverlayKey::Backspace => KeyCommand::DeleteLastChar,
        OverlayKey::Enter => KeyCommand::CommitText,
        OverlayKey::Escape => KeyCommand::CancelText,
        _ => KeyCommand::Ignore,
    }
}

/// Ctrl chords and tool shortcuts, on the lowercased key text `k`: Ctrl+C
/// copies, Ctrl+S saves, Ctrl+Shift+Z redoes, Ctrl+Z undoes, Ctrl+A selects
/// the whole screen; without Ctrl the key switches to the tool bound to it.
pub open spec fn char_key_command(ctrl: bool, shift: bool, k: Seq<char>, keys: Seq<Seq<char>>) -> KeyCommand {
    if k == "c"@ && ctrl {
        KeyCommand::Copy
    } else if k == "s"@ && ctrl {
        KeyCommand::Save
    } else if k == "z"@ && ctrl && shift {
        KeyCommand::Redo
    } else if k == "z"@ && ctrl {
        KeyCommand::Undo
    } else if k == "a"@ && ctrl {
        KeyCommand::SelectAll
    } else if !ctrl {
        match tool_bound_from(keys, k, 0) {
            Some(t) => KeyCommand::SwitchTool(t),
            None => KeyCommand::Ignore,
        }
    } else {
        KeyCommand::Ignore
    }
}

/// The command for a key press in context `ctx`, with tool shortcuts `keys`.
pub open spec fn key_command(ctx: KeyContext, key: OverlayKey, keys: Seq<Seq<char>>) -> KeyCommand {
    if ctx.text_input_active {
        text_key_command(ctx.ctrl, key)
    } else {
        match key {
            OverlayKey::Escape => if ctx.has_selected_annotation {
                KeyCommand::Deselect
            } else {
                KeyCommand::CloseOverlay
            },
            OverlayKey::Delete => if ctx.has_selected_annotation { KeyCommand::DeleteSelected } else { KeyCommand::Ignore },
            OverlayKey::Backspace => if ctx.has_selected_annotation { KeyCommand::DeleteSelected } else { KeyCommand::Ignore },
            OverlayKey::Enter => if ctx.has_selection { KeyCommand::QuickCopy } else { KeyCommand::Ignore },
            OverlayKey::Character(ch) => char_key_command(ctx.ctrl, ctx.shift, lowercased(ch@), keys),
            _ => KeyCommand::Ignore,
        }
    }
}

/// Outside text input, Ctrl with a key whose lowercase is `a` selects the
/// whole screen, whatever is selected already and whether Shift is held.
pub proof fn lemma_ctrl_a_selects_all(ctx: KeyContext, ch: String, keys: Seq<Seq<char>>)
    requires
        !ctx.text_input_active,
        ctx.ctrl,
        lowercased(ch@) == "a"@,
    ensures
        key_command(ctx, OverlayKey::Character(ch), keys) == KeyCommand::SelectAll,
{
    reveal_strlit("a");
    reveal_strlit("c");
    reveal_strlit("s");
    reveal_strlit("z");
    assert("a"@[0] != "c"@[0] && "a"@[0] != "s"@[0] && "a"@[0] != "z"@[0]);
}

/// Decide what a key press does in the overlay.
pub fn overlay_key_command(ctx: KeyContext, key: &OverlayKey, shortcuts: &ShortcutsConfig) -> (cmd: KeyCommand)
    ensures
        cmd == key_command(ctx, *key, shortcuts.keys()),
        !ctx.text_input_active && ctx.ctrl && (*key matches OverlayKey::Character(ch) && (ch@ == seq!['a'] || ch@ == seq!['A']))
            ==> cmd == KeyCommand::SelectAll,
{
    if ctx.text_input_active {
        return match key {
            OverlayKey::Character(ch) => {
                if ctx.ctrl && str_eq_ignore_ascii_case(ch.as_str(), "v") {
                    KeyCommand::PasteText
                } else if ctx.ctrl {
                    KeyCommand::Ignore
                } else {
                    KeyCommand::InsertText
                }
            },
            OverlayKey::Space => KeyCommand::InsertSpace,
            OverlayKey::Backspace => KeyCommand::DeleteLastChar,
            OverlayKey::Enter => KeyCommand::CommitText,
            OverlayKey::Escape => KeyCommand::CancelText,
            _ => KeyCommand::Ignore,
        };
    }
    match key {
        OverlayKey::Escape => {
            if ctx.has_selected_annotation {
                KeyCommand::Deselect
            } else {
                KeyCommand::CloseOverlay
            }
        },
        OverlayKey::Delete | OverlayKey::Backspace => {
            if ctx.has_selected_annotation {
                KeyCommand::DeleteSelected
            } else {
                KeyCommand::Ignore
            }
        },
        OverlayKey::Enter => {
            if ctx.has_selection {
                KeyCommand::QuickCopy
            } else {
                KeyCommand::Ignore
            }
        },
        OverlayKey::Character(ch) => {
            let k = to_lowercase(ch.as_str());
            proof {
                reveal_strlit("a");
                reveal_strlit("c");
                reveal_strlit("s");
                reveal_strlit("z");
                assert("a"@[0] != "c"@[0] && "a"@[0] != "s"@[0] && "a"@[0] != "z"@[0]);
                if ch@ == seq!['a'] || ch@ == seq!['A'] {
                    assert(k@ =~= "a"@);
                }
            }
            let k = k.as_str();
            if str_eq(k, "c") && ctx.ctrl {
                KeyCommand::Copy
            } else if str_eq(k, "s") && ctx.ctrl {
                KeyCommand::Save
            } else if str_eq(k, "z") && ctx.ctrl && ctx.shift {
                KeyCommand::Redo
            } else if str_eq(k, "z") && ctx.ctrl {
                KeyCommand::Undo
            } else if str_eq(k, "a") && ctx.ctrl {
                KeyCommand::SelectAll
            } else if !ctx.ctrl {
                match shortcuts.tool_for_key(k) {
                    Some(t) => KeyCommand::SwitchTool(t),
                    None => KeyCommand::Ignore,
                }
            } else {
                KeyCommand::Ignore
            }
        },
        _ => KeyCommand::Ignore,
    }
}

/// A character of pasted text, with line breaks folded to spaces (a text
/// annotation is a single line).
pub open spec fn folded_char(c: char) -> char {
    if c == '\r' || c == '\n' { ' ' } else { c }
}

/// `text` with every carriage return and line feed replaced by a space.
pub fn fold_newlines(text: &str) -> (folded: String)
    ensures
        folded@ == text@.map_values(|c: char| folded_char(c)),
{
    let n = text.unicode_len();
    let mut folded = String::new();
    let mut i: usize = 0;
    while i < n
        invariant
            n == text@.len(),
            i <= n,
            folded@ == text@.take(i as int).map_values(|c: char| folded_char(c)),
        decreases n - i,
    {
        let c = text.get_char(i);
        let d = if c == '\r' || c == '\n' { ' ' } else { c };
        push_char(&mut folded, d);
        i += 1;
        assert(folded@ =~= text@.take(i as int).map_values(|c: char| folded_char(c)));
    }
    assert(text@.take(n as int) =~= text@);
    folded
}

/// Mouse cursor shapes the overlay uses.
#[derive(Debug, Clone, Copy, PartialEq, Eq, Structural)]
pub enum CursorShape {
    Default,
    Crosshair,
    Text,
    Cell,
    Pointer,
    NwseResize,
    NeswResize,
    NsResize,
    EwResize,
}

/// The cursor shown over zone `zone` of the selection: a resize arrow along
/// the zone's axis, or inside the selection the cursor of the active tool.
pub open spec fn zone_cursor(zone: HitZone, tool: ToolKind) -> CursorShape {
    match zone {
        HitZone::TopLeft | HitZone::BottomRight => CursorShape::NwseResize,
        HitZone::TopRight | HitZone::BottomLeft => CursorShape::NeswResize,
        HitZone::Top | HitZone::Bottom => CursorShape::NsResize,
        HitZone::Left | HitZone::Right => CursorShape::EwResize,
        HitZone::Inside => match tool {
            ToolKind::Select => CursorShape::Default,
            ToolKind::Text => CursorShape::Text,
            ToolKind::StepMarker => CursorShape::Cell,
            _ => CursorShape::Crosshair,
        },
    }
}

/// Map a selection zone to the cursor shown over it.
pub fn hitzone_to_cursor(zone: HitZone, tool: ToolKind) -> (shape: CursorShape)
    ensures
        shape == zone_cursor(zone, tool),
{
    match zone {
        HitZone::TopLeft | HitZone::BottomRight => CursorShape::NwseResize,
        HitZone::TopRight | HitZone::BottomLeft => CursorShape::NeswResize,
        HitZone::Top | HitZone::Bottom => CursorShape::NsResize,
        HitZone::Left | HitZone::Right => CursorShape::EwResize,
        HitZone::Inside => match tool {
            ToolKind::Select => CursorShape::Default,
            ToolKind::Text => CursorShape::Text,
            ToolKind::StepMarker => CursorShape::Cell,
            _ => CursorShape::Crosshair,
        },
    }
}

/// The size label of a selection: `W × H` in whole pixels.
pub open spec fn size_label_text(w: u32, h: u32) -> Seq<char> {
    decimal(w as nat) + seq![' ', '\u{00D7}', ' '] + decimal(h as nat)
}

/// The text of the selection size label.
pub fn size_label(w: u32, h: u32) -> (label: String)
    ensures
        label@ == size_label_text(w, h),
{
    let mut label = String::new();
    push_decimal(&mut label, w as u64);
    push_char(&mut label, ' ');
    push_char(&mut label, '\u{00D7}');
    push_char(&mut label, ' ');
    push_decimal(&mut label, h as u64);
    assert(label@ =~= size_label_text(w, h));
    label
}

/// Side of the square countdown window, in pixels.
pub const COUNTDOWN_SIZE: u32 = 120;

/// Top-left corner of the countdown window centered on a monitor at
/// `(x, y)` of size `width` x `height`.
pub open spec fn countdown_origin_of(x: i32, y: i32, width: u32, height: u32) -> (int, int) {
    (x + half_toward_zero(width - COUNTDOWN_SIZE), y + half_toward_zero(height - COUNTDOWN_SIZE))
}

/// Half of `v`, rounded toward zero (signed integer division by two).
pub open spec fn half_toward_zero(v: int) -> int {
    if v >= 0 { v / 2 } else { -((-v) / 2) }
}

/// Where the countdown window goes: centered on the monitor (rounding toward
/// zero, as the sizes are signed), or at (800, 400) when no monitor is known.
pub fn countdown_origin(monitor: Option<(i32, i32, u32, u32)>) -> (origin: (i32, i32))
    requires
        monitor matches Some((x, y, w, h)) ==> w <= i32::MAX && h <= i32::MAX
            && i32::MIN <= countdown_origin_of(x, y, w, h).0 <= i32::MAX
            && i32::MIN <= countdown_origin_of(x, y, w, h).1 <= i32::MAX,
    ensures
        match monitor {
            Some((x, y, w, h)) => origin.0 == countdown_origin_of(x, y, w, h).0
                && origin.1 == countdown_origin_of(x, y, w, h).1,
            None => origin == (800i32, 400i32),
        },
{
    match monitor {
        Some((x, y, w, h)) => {
            let dx: i32 = (w as i32 - 120) / 2;
            let dy: i32 = (h as i32 - 120) / 2;
            (x + dx, y + dy)
        },
        None => (800, 400),
    }
}

/// What one check of the capture countdown does.
#[derive(Debug, Clone, Copy, PartialEq, Eq, Structural)]
pub enum CountdownStep {
    /// The second has not elapsed yet.
    Wait,
    /// A second elapsed; this many remain (show it, check again in a second).
    Tick(u32),
    /// The countdown reached zero: capture now.
    Fire,
}

/// One countdown check with `remaining` seconds left.
pub open spec fn countdown_step_of(remaining: u32, second_elapsed: bool) -> CountdownStep {
    if !second_elapsed {
        CountdownStep::Wait
    } else if remaining > 1 {
        CountdownStep::Tick((remaining - 1) as u32)
    } else {
        CountdownStep::Fire
    }
}

/// Advance the countdown if a second has elapsed: one second less remains,
/// and reaching zero (or starting at zero) fires the capture.
pub fn countdown_step(remaining: u32, second_elapsed: bool) -> (step: CountdownStep)
    ensures
        step == countdown_step_of(remaining, second_elapsed),
{
    if !second_elapsed {
        return CountdownStep::Wait;
    }
    let left = remaining.saturating_sub(1);
    if left > 0 {
        CountdownStep::Tick(left)
    } else {
        CountdownStep::Fire
    }
}

/// How many of the checks found a second elapsed.
pub open spec fn seconds_elapsed(checks: Seq<bool>) -> nat
    decreases checks.len(),
{
    if checks.len() == 0 {
        0
    } else {
        seconds_elapsed(checks.drop_last()) + if checks.last() { 1nat } else { 0nat }
    }
}

/// The seconds still shown after a countdown that started at `start` went
/// through `checks` in order (each telling whether a second had elapsed),
/// or `None` once it has fired.
pub open spec fn countdown_run(start: u32, checks: Seq<bool>) -> Option<u32>
    decreases checks.len(),
{
    if checks.len() == 0 {
        Some(start)
    } else {
        match countdown_run(start, checks.drop_last()) {
            None => None,
            Some(r) => match countdown_step_of(r, checks.last()) {
                CountdownStep::Wait => Some(r),
                CountdownStep::Tick(n) => Some(n),
                CountdownStep::Fire => None,
            },
        }
    }
}

/// A countdown started at `s` seconds shows one second less at each
/// elapsed second and fires at the `s`-th: checks before a second has
/// elapsed change nothing, the first `s - 1` elapsed seconds tick, and the
/// `s`-th fires the capture.
pub proof fn lemma_countdown_fires_after_start_seconds(s: u32, checks: Seq<bool>)
    requires
        s >= 1,
    ensures
        seconds_elapsed(checks) < s ==> countdown_run(s, checks) == Some((s - seconds_elapsed(checks)) as u32),
        seconds_elapsed(checks) >= s ==> countdown_run(s, checks) is None,
        seconds_elapsed(checks) + 1 < s ==> countdown_step_of(countdown_run(s, checks).unwrap(), true)
            == CountdownStep::Tick((s - seconds_elapsed(checks) - 1) as u32),
        seconds_elapsed(checks) + 1 == s ==> countdown_step_of(countdown_run(s, checks).unwrap(), true)
            == CountdownStep::Fire,
        seconds_elapsed(checks) < s ==> countdown_step_of(countdown_run(s, checks).unwrap(), false)
            == CountdownStep::Wait,
    decreases checks.len(),
{
    if checks.len() > 0 {
        lemma_countdown_fires_after_start_seconds(s, checks.drop_last());
    }
}

} // verus!
