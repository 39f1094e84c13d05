//! The toolbar's buttons: what each does, its icon and its tooltip, in the
//! order that the toolbar configuration's button indices refer to (tools,
//! then color swatches, then actions).

use vstd::prelude::*;
use crate::tools::{tool_at, tool_at_index, ToolKind, TOOL_COUNT};
use crate::toolbar_config::{BUTTON_COUNT, FIRST_FIXED_BUTTON};

verus! {

/// What a toolbar button does when clicked.
#[derive(Debug, Clone, Copy, PartialEq, Eq, Structural)]
pub enum ButtonAction {
    /// Switch the active annotation tool.
    Tool(ToolKind),
    /// Select a preset color (index into the color presets).
    Color(usize),
    Ocr,
    Upload,
    Pin,
    Copy,
    Save,
}

/// Definition of one toolbar button.
pub struct ButtonDef {
    pub action: ButtonAction,
    /// Icon name; `None` for color swatches.
    pub icon: Option<&'static str>,
    pub tooltip: &'static str,
}

/// Index of the first action button (after the color swatches).
pub const FIRST_ACTION_BUTTON: usize = 19;

/// The action of button `i`.
pub open spec fn button_action(i: int) -> ButtonAction {
    if i < TOOL_COUNT {
        ButtonAction::Tool(tool_at(i))
    } else if i < FIRST_ACTION_BUTTON {
        ButtonAction::Color((i - FIRST_FIXED_BUTTON) as usize)
    } else if i == 19 {
        ButtonAction::Ocr
    } else if i == 20 {
        ButtonAction::Upload
    } else if i == 21 {
        ButtonAction::Pin
    } else if i == 22 {
        ButtonAction::Copy
    } else {
        ButtonAction::Save
    }
}

/// The icon name of button `i`.
pub open spec fn button_icon(i: int) -> Option<Seq<char>> {
    if i == 0 { Some("select"@) } else 
    if i == 1 { Some("arrow"@) } else 
    if i == 2 { Some("rectangle"@) } else 
    if i == 3 { Some("circle"@) } else 
    if i == 4 { Some("rounded-rect"@) } else 
    if i == 5 { Some("line"@) } else 
    if i == 6 { Some("pencil"@) } else 
    if i == 7 { Some("highlight"@) } else 
    if i == 8 { Some("spotlight"@) } else 
    if i == 9 { Some("text"@) } else 
    if i == 10 { Some("pixelate"@) } else 
    if i == 11 { Some("step-marker"@) } else 
    if i == 12 { Some("eyedropper"@) } else 
    if i == 13 { Some("measurement"@) } else 
    if i == 14 { None } else 
    if i == 15 { None } else 
    if i == 16 { None } else 
    if i == 17 { None } else 
    if i == 18 { None } else 
    if i == 19 { Some("ocr"@) } else 
    if i == 20 { Some("upload"@) } else 
    if i == 21 { Some("pin"@) } else 
    if i == 22 { Some("copy"@) } else { Some("save"@) }
}

/// The tooltip of button `i`.
pub open spec fn button_tooltip(i: int) -> Seq<char> {
    if i == 0 { "Select (V)"@ } else 
    if i == 1 { "Arrow (A)"@ } else 
    if i == 2 { "Rectangle (R)"@ } else 
    if i == 3 { "Circle (C)"@ } else 
    if i == 4 { "Rounded Rect (O)"@ } else 
    if i == 5 { "Line (L)"@ } else 
    if i == 6 { "Pencil (P)"@ } else 
    if i == 7 { "Highlight (H)"@ } else 
    if i == 8 { "Spotlight (F)"@ } else 
    if i == 9 { "Text (T)"@ } else 
    if i == 10 { "Pixelate (B)"@ } else 
    if i == 11 { "Step Marker (N)"@ } else 
    if i == 12 { "Eyedropper (I)"@ } else 
    if i == 13 { "Measurement (M)"@ } else 
    if i == 14 { "Red #f38ba8 (right-click: pick)"@ } else 
    if i == 15 { "Blue #89b4fa (right-click: pick)"@ } else 
    if i == 16 { "Green #a6e3a1 (right-click: pick)"@ } else 
    if i == 17 { "Yellow #f9e2af (right-click: pick)"@ } else 
    if i == 18 { "Mauve #cba6f7 (right-click: pick)"@ } else 
    if i == 19 { "OCR (Extract Text)"@ } else 
    if i == 20 { "Upload (Imgur)"@ } else 
    if i == 21 { "Pin"@ } else 
    if i == 22 { "Copy (Ctrl+C)"@ } else { "Save (Ctrl+S)"@ }
}

fn button_text(i: usize) -> (text: (&'static str, Option<&'static str>))
    requires
        i < BUTTON_COUNT,
    ensures
        text.0@ == button_tooltip(i as int),
        text.1 is Some == button_icon(i as int) is Some,
        text.1 is Some ==> text.1.unwrap()@ == button_icon(i as int).unwrap(),
{
    match i {
        0 => ("Select (V)", Some("select")),
        1 => ("Arrow (A)", Some("arrow")),
        2 => ("Rectangle (R)", Some("rectangle")),
        3 => ("Circle (C)", Some("circle")),
        4 => ("Rounded Rect (O)", Some("rounded-rect")),
        5 => ("Line (L)", Some("line")),
        6 => ("Pencil (P)", Some("pencil")),
        7 => ("Highlight (H)", Some("highlight")),
        8 => ("Spotlight (F)", Some("spotlight")),
        9 => ("Text (T)", Some("text")),
        10 => ("Pixelate (B)", Some("pixelate")),
        11 => ("Step Marker (N)", Some("step-marker")),
        12 => ("Eyedropper (I)", Some("eyedropper")),
        13 => ("Measurement (M)", Some("measurement")),
        14 => ("Red #f38ba8 (right-click: pick)", None),
        15 => ("Blue #89b4fa (right-click: pick)", None),
        16 => ("Green #a6e3a1 (right-click: pick)", None),
        17 => ("Yellow #f9e2af (right-click: pick)", None),
        18 => ("Mauve #cba6f7 (right-click: pick)", None),
        19 => ("OCR (Extract Text)", Some("ocr")),
        20 => ("Upload (Imgur)", Some("upload")),
        21 => ("Pin", Some("pin")),
        22 => ("Copy (Ctrl+C)", Some("copy")),
        _ => ("Save (Ctrl+S)", Some("save")),
    }
}

/// The definition of button `i`.
pub fn button_def(i: usize) -> (def: ButtonDef)
    requires
        i < BUTTON_COUNT,
    ensures
        def.action == button_action(i as int),
        def.tooltip@ == button_tooltip(i as int),
        def.icon is Some == button_icon(i as int) is Some,
        def.icon is Some ==> def.icon.unwrap()@ == button_icon(i as int).unwrap(),
{
    let action = if i < TOOL_COUNT {
        ButtonAction::Tool(tool_at_index(i))
    } else if i < FIRST_ACTION_BUTTON {
        ButtonAction::Color(i - FIRST_FIXED_BUTTON)
    } else if i == 19 {
        ButtonAction::Ocr
    } else if i == 20 {
        ButtonAction::Upload
    } else if i == 21 {
        ButtonAction::Pin
    } else if i == 22 {
        ButtonAction::Copy
    } else {
        ButtonAction::Save
    };
    let (tooltip, icon) = button_text(i);
    ButtonDef { action, icon, tooltip }
}

/// The action of the clicked visible button `vis_idx`, where `visible`
/// lists the shown buttons' indices (`None` for an index past the buttons).
pub fn visible_button_action(visible: &Vec<usize>, vis_idx: usize) -> (action: Option<ButtonAction>)
    requires
        vis_idx < visible@.len(),
    ensures
        action == (if visible@[vis_idx as int] < BUTTON_COUNT {
            Some(button_action(visible@[vis_idx as int] as int))
        } else {
            None
        }),
{
    let btn = visible[vis_idx];
    if btn < BUTTON_COUNT {
        Some(button_def(btn).action)
    } else {
        None
    }
}

} // verus!
