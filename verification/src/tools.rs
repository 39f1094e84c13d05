//! Annotation tool kinds and the step-marker numbering rule.

use vstd::prelude::*;

verus! {

/// The annotation tools of the overlay.
#[derive(Debug, Clone, Copy, PartialEq, Eq, Structural)]
pub enum ToolKind {
    Select,
    Arrow,
    Rectangle,
    Circle,
    Line,
    Pencil,
    Highlight,
    Text,
    Pixelate,
    StepMarker,
    Eyedropper,
    RoundedRect,
    Spotlight,
    Measurement,
}

/// The corner handle dragged when resizing an annotation.
#[derive(Debug, Clone, Copy, PartialEq, Eq, Structural)]
pub enum ResizeHandle {
    TopLeft,
    TopRight,
    BottomLeft,
    BottomRight,
}

/// Number of tools that can be shown on the toolbar and bound to a shortcut.
pub const TOOL_COUNT: usize = 14;

/// The tool at position `i` of the toolbar and of the shortcut list.
pub open spec fn tool_at(i: int) -> ToolKind {
    if i == 0 {
        ToolKind::Select
    } else if i == 1 {
        ToolKind::Arrow
    } else if i == 2 {
        ToolKind::Rectangle
    } else if i == 3 {
        ToolKind::Circle
    } else if i == 4 {
        ToolKind::RoundedRect
    } else if i == 5 {
        ToolKind::Line
    } else if i == 6 {
        ToolKind::Pencil
    } else if i == 7 {
        ToolKind::Highlight
    } else if i == 8 {
        ToolKind::Spotlight
    } else if i == 9 {
        ToolKind::Text
    } else if i == 10 {
        ToolKind::Pixelate
    } else if i == 11 {
        ToolKind::StepMarker
    } else if i == 12 {
        ToolKind::Eyedropper
    } else {
        ToolKind::Measurement
    }
}

/// The tool at position `i` of the toolbar and of the shortcut list.
pub fn tool_at_index(i: usize) -> (t: ToolKind)
    requires
        i < TOOL_COUNT,
    ensures
        t == tool_at(i as int),
{
    match i {
        0 => ToolKind::Select,
        1 => ToolKind::Arrow,
        2 => ToolKind::Rectangle,
        3 => ToolKind::Circle,
        4 => ToolKind::RoundedRect,
        5 => ToolKind::Line,
        6 => ToolKind::Pencil,
        7 => ToolKind::Highlight,
        8 => ToolKind::Spotlight,
        9 => ToolKind::Text,
        10 => ToolKind::Pixelate,
        11 => ToolKind::StepMarker,
        12 => ToolKind::Eyedropper,
        _ => ToolKind::Measurement,
    }
}

/// Largest number of the sequence, 0 when it is empty.
pub open spec fn max_number(numbers: Seq<u32>) -> u32
    decreases numbers.len(),
{
    if numbers.len() == 0 {
        0
    } else {
        let m = max_number(numbers.drop_last());
        if numbers.last() > m {
            numbers.last()
        } else {
            m
        }
    }
}

/// The number the next step marker gets: one past the highest number already
/// placed (saturating), so undo/redo/delete leave no gaps in the numbering.
pub fn next_step_number(numbers: &[u32]) -> (next: u32)
    ensures
        next == if max_number(numbers@) == u32::MAX { u32::MAX } else { (max_number(numbers@) + 1) as u32 },
{
    let mut max: u32 = 0;
    let mut i: usize = 0;
    while i < numbers.len()
        invariant
            i <= numbers@.len(),
            max == max_number(numbers@.take(i as int)),
        decreases numbers@.len() - i,
    {
        assert(numbers@.take(i as int + 1).drop_last() =~= numbers@.take(i as int));
        if numbers[i] > max {
            max = numbers[i];
        }
        i += 1;
    }
    assert(numbers@.take(numbers@.len() as int) =~= numbers@);
    max.saturating_add(1)
}

/// Every number already placed is below the next step number, unless the
/// numbering has reached `u32::MAX`.
pub proof fn lemma_max_number_is_max(numbers: Seq<u32>, i: int)
    requires
        0 <= i < numbers.len(),
    ensures
        numbers[i] <= max_number(numbers),
    decreases numbers.len(),
{
    if i < numbers.len() - 1 {
        lemma_max_number_is_max(numbers.drop_last(), i);
    }
}

} // verus!
