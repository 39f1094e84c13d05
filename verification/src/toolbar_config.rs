//! The toolbar layout section of the configuration: which tool buttons are
//! shown.

use vstd::prelude::*;
use crate::tools::TOOL_COUNT;
use crate::config::{tool_label, tool_symbol};

verus! {

/// Index of the first color swatch button; swatches and action buttons
/// (indices 14-23) are always visible.
pub const FIRST_FIXED_BUTTON: usize = 14;

/// Total number of toolbar buttons.
pub const BUTTON_COUNT: usize = 24;

/// The indices `i < n` whose flag is set, in increasing order.
pub open spec fn enabled_indices(flags: Seq<bool>, n: int) -> Seq<usize>
    decreases n,
{
    if n <= 0 {
        Seq::empty()
    } else if flags[n - 1] {
        enabled_indices(flags, n - 1).push((n - 1) as usize)
    } else {
        enabled_indices(flags, n - 1)
    }
}

/// The button indices that are always shown: color swatches and actions.
pub open spec fn fixed_buttons() -> Seq<usize> {
    Seq::new((BUTTON_COUNT - FIRST_FIXED_BUTTON) as nat, |i: int| (FIRST_FIXED_BUTTON + i) as usize)
}

/// The `[toolbar]` section: which tool buttons are shown.
pub struct ToolbarConfig {
    pub select: bool,
    pub arrow: bool,
    pub rectangle: bool,
    pub circle: bool,
    pub rounded_rect: bool,
    pub line: bool,
    pub pencil: bool,
    pub highlight: bool,
    pub spotlight: bool,
    pub text: bool,
    pub pixelate: bool,
    pub step_marker: bool,
    pub eyedropper: bool,
    pub measurement: bool,
}

impl ToolbarConfig {
    /// The visibility flags in toolbar order.
    pub open spec fn flags(&self) -> Seq<bool> {
        Seq::new(TOOL_COUNT as nat, |i: int| self.flag(i))
    }

    /// The visibility flag of the tool at position `i`.
    pub open spec fn flag(&self, i: int) -> bool {
        if i == 0 { self.select } else if i == 1 { self.arrow } else if i == 2 { self.rectangle }
        else if i == 3 { self.circle } else if i == 4 { self.rounded_rect } else if i == 5 { self.line }
        else if i == 6 { self.pencil } else if i == 7 { self.highlight } else if i == 8 { self.spotlight }
        else if i == 9 { self.text } else if i == 10 { self.pixelate } else if i == 11 { self.step_marker }
        else if i == 12 { self.eyedropper } else { self.measurement }
    }

    /// The visible button indices (0-23): enabled tools (0-13) in order,
    /// then the color swatches (14-18) and actions (19-23), always shown.
    pub fn visible_button_indices(&self) -> (indices: Vec<usize>)
        ensures
            indices@ == enabled_indices(self.flags(), TOOL_COUNT as int) + fixed_buttons(),
    {
        let flags: [bool; 14] = [
            self.select, self.arrow, self.rectangle, self.circle, self.rounded_rect,
            self.line, self.pencil, self.highlight, self.spotlight, self.text,
            self.pixelate, self.step_marker, self.eyedropper, self.measurement,
        ];
        assert(flags@ =~= self.flags());
        let mut indices: Vec<usize> = Vec::new();
        let mut i: usize = 0;
        while i < TOOL_COUNT
            invariant
                i <= TOOL_COUNT,
                flags@ == self.flags(),
                indices@ == enabled_indices(self.flags(), i as int),
            decreases TOOL_COUNT - i,
        {
            if flags[i] {
                indices.push(i);
            }
            i += 1;
        }
        let ghost tools = indices@;
        let mut b: usize = FIRST_FIXED_BUTTON;
        while b < BUTTON_COUNT
            invariant
                FIRST_FIXED_BUTTON <= b <= BUTTON_COUNT,
                indices@ == tools + fixed_buttons().take(b - FIRST_FIXED_BUTTON),
            decreases BUTTON_COUNT - b,
        {
            indices.push(b);
            b += 1;
            assert(fixed_buttons().take(b - FIRST_FIXED_BUTTON)
                =~= fixed_buttons().take(b - 1 - FIRST_FIXED_BUTTON).push((b - 1) as usize));
        }
        assert(fixed_buttons().take((BUTTON_COUNT - FIRST_FIXED_BUTTON) as int) =~= fixed_buttons());
        indices
    }

    /// Ordered list of (symbol, label, enabled) for the settings window.
    #[verifier::rlimit(50)]
    pub fn entries(&self) -> (list: Vec<(&'static str, &'static str, bool)>)
        ensures
            list@.len() == TOOL_COUNT,
            forall|i: int| 0 <= i < TOOL_COUNT ==> {
                &&& (#[trigger] list@[i]).0@ == tool_symbol(i)
                &&& list@[i].1@ == tool_label(i)
            },
            list@.map_values(|e: (&'static str, &'static str, bool)| e.2) == self.flags(),
    {
        let list = vec![
            ("->", "Select / Move", self.select),
            (">>", "Arrow", self.arrow),
            ("[]", "Rectangle", self.rectangle),
            ("()", "Circle", self.circle),
            ("[.]", "Rounded Rect", self.rounded_rect),
            ("--", "Line", self.line),
            ("~", "Pencil", self.pencil),
            ("##", "Highlight", self.highlight),
            ("**", "Spotlight", self.spotlight),
            ("Aa", "Text", self.text),
            ("::", "Pixelate", self.pixelate),
            ("1.", "Step Marker", self.step_marker),
            ("/|", "Eyedropper", self.eyedropper),
            ("|<>", "Measurement", self.measurement),
        ];
        assert(list@.map_values(|e: (&'static str, &'static str, bool)| e.2) =~= self.flags());
        list
    }

    /// Toggle the tool at `index` (0-13); other indices are ignored.
    pub fn toggle_by_index(&mut self, index: usize)
        ensures
            final(self).select == (if index == 0 { !old(self).select } else { old(self).select }),
            final(self).arrow == (if index == 1 { !old(self).arrow } else { old(self).arrow }),
            final(self).rectangle == (if index == 2 { !old(self).rectangle } else { old(self).rectangle }),
            final(self).circle == (if index == 3 { !old(self).circle } else { old(self).circle }),
            final(self).rounded_rect == (if index == 4 { !old(self).rounded_rect } else { old(self).rounded_rect }),
            final(self).line == (if index == 5 { !old(self).line } else { old(self).line }),
            final(self).pencil == (if index == 6 { !old(self).pencil } else { old(self).pencil }),
            final(self).highlight == (if index == 7 { !old(self).highlight } else { old(self).highlight }),
            final(self).spotlight == (if index == 8 { !old(self).spotlight } else { old(self).spotlight }),
            final(self).text == (if index == 9 { !old(self).text } else { old(self).text }),
            final(self).pixelate == (if index == 10 { !old(self).pixelate } else { old(self).pixelate }),
            final(self).step_marker == (if index == 11 { !old(self).step_marker } else { old(self).step_marker }),
            final(self).eyedropper == (if index == 12 { !old(self).eyedropper } else { old(self).eyedropper }),
            final(self).measurement == (if index == 13 { !old(self).measurement } else { old(self).measurement }),
            *final(self) == toggled(*old(self), index),
            index < TOOL_COUNT ==> final(self).flags() == old(self).flags().update(index as int, !old(self).flags()[index as int]),
            index >= TOOL_COUNT ==> *final(self) == *old(self),
            toggled(*final(self), index) == *old(self),
    {
        let ghost before = *self;
        let after = toggled_config(self, index);
        *self = after;
        proof {
            lemma_toggle_twice(before, index);
            lemma_toggled_flags(before, index);
        }
    }
}

/// A copy of `t` with the tool at `index` toggled.
fn toggled_config(t: &ToolbarConfig, index: usize) -> (r: ToolbarConfig)
    ensures
        r == toggled(*t, index),
{
    ToolbarConfig {
        select: if index == 0 { !t.select } else { t.select },
        arrow: if index == 1 { !t.arrow } else { t.arrow },
        rectangle: if index == 2 { !t.rectangle } else { t.rectangle },
        circle: if index == 3 { !t.circle } else { t.circle },
        rounded_rect: if index == 4 { !t.rounded_rect } else { t.rounded_rect },
        line: if index == 5 { !t.line } else { t.line },
        pencil: if index == 6 { !t.pencil } else { t.pencil },
        highlight: if index == 7 { !t.highlight } else { t.highlight },
        spotlight: if index == 8 { !t.spotlight } else { t.spotlight },
        text: if index == 9 { !t.text } else { t.text },
        pixelate: if index == 10 { !t.pixelate } else { t.pixelate },
        step_marker: if index == 11 { !t.step_marker } else { t.step_marker },
        eyedropper: if index == 12 { !t.eyedropper } else { t.eyedropper },
        measurement: if index == 13 { !t.measurement } else { t.measurement },
    }
}

/// `t` with the tool at `index` toggled (unchanged for an index past the
/// tools).
pub open spec fn toggled(t: ToolbarConfig, index: usize) -> ToolbarConfig {
    ToolbarConfig {
        select: if index == 0 { !t.select } else { t.select },
        arrow: if index == 1 { !t.arrow } else { t.arrow },
        rectangle: if index == 2 { !t.rectangle } else { t.rectangle },
        circle: if index == 3 { !t.circle } else { t.circle },
        rounded_rect: if index == 4 { !t.rounded_rect } else { t.rounded_rect },
        line: if index == 5 { !t.line } else { t.line },
        pencil: if index == 6 { !t.pencil } else { t.pencil },
        highlight: if index == 7 { !t.highlight } else { t.highlight },
        spotlight: if index == 8 { !t.spotlight } else { t.spotlight },
        text: if index == 9 { !t.text } else { t.text },
        pixelate: if index == 10 { !t.pixelate } else { t.pixelate },
        step_marker: if index == 11 { !t.step_marker } else { t.step_marker },
        eyedropper: if index == 12 { !t.eyedropper } else { t.eyedropper },
        measurement: if index == 13 { !t.measurement } else { t.measurement },
    }
}

/// Toggling the same tool twice restores the configuration.
pub proof fn lemma_toggle_twice(t: ToolbarConfig, index: usize)
    ensures
        toggled(toggled(t, index), index) == t,
{
    let u = toggled(toggled(t, index), index);
    assert(u.select == t.select);
    assert(u.arrow == t.arrow);
    assert(u.rectangle == t.rectangle);
    assert(u.circle == t.circle);
    assert(u.rounded_rect == t.rounded_rect);
    assert(u.line == t.line);
    assert(u.pencil == t.pencil);
    assert(u.highlight == t.highlight);
    assert(u.spotlight == t.spotlight);
    assert(u.text == t.text);
    assert(u.pixelate == t.pixelate);
    assert(u.step_marker == t.step_marker);
    assert(u.eyedropper == t.eyedropper);
    assert(u.measurement == t.measurement);
}

/// Toggling the tool at `index` flips its flag and keeps every other one.
#[verifier::rlimit(60)]
#[verifier::spinoff_prover]
pub proof fn lemma_toggled_flags(t: ToolbarConfig, index: usize)
    ensures
        index < TOOL_COUNT ==> toggled(t, index).flags() == t.flags().update(index as int, !t.flags()[index as int]),
        index >= TOOL_COUNT ==> toggled(t, index) == t,
{
    if index == 0 {
        assert(toggled(t, 0).flags() =~= t.flags().update(0, !t.flags()[0]));
    } else if index == 1 {
        assert(toggled(t, 1).flags() =~= t.flags().update(1, !t.flags()[1]));
    } else if index == 2 {
        assert(toggled(t, 2).flags() =~= t.flags().update(2, !t.flags()[2]));
    } else if index == 3 {
        assert(toggled(t, 3).flags() =~= t.flags().update(3, !t.flags()[3]));
    } else if index == 4 {
        assert(toggled(t, 4).flags() =~= t.flags().update(4, !t.flags()[4]));
    } else if index == 5 {
        assert(toggled(t, 5).flags() =~= t.flags().update(5, !t.flags()[5]));
    } else if index == 6 {
        assert(toggled(t, 6).flags() =~= t.flags().update(6, !t.flags()[6]));
    } else if index == 7 {
        assert(toggled(t, 7).flags() =~= t.flags().update(7, !t.flags()[7]));
    } else if index == 8 {
        assert(toggled(t, 8).flags() =~= t.flags().update(8, !t.flags()[8]));
    } else if index == 9 {
        assert(toggled(t, 9).flags() =~= t.flags().update(9, !t.flags()[9]));
    } else if index == 10 {
        assert(toggled(t, 10).flags() =~= t.flags().update(10, !t.flags()[10]));
    } else if index == 11 {
        assert(toggled(t, 11).flags() =~= t.flags().update(11, !t.flags()[11]));
    } else if index == 12 {
        assert(toggled(t, 12).flags() =~= t.flags().update(12, !t.flags()[12]));
    } else if index == 13 {
        assert(toggled(t, 13).flags() =~= t.flags().update(13, !t.flags()[13]));
    } else {
        assert(toggled(t, index) == t);
    }
}

impl Default for ToolbarConfig {
    fn default() -> (cfg: Self)
        ensures
            cfg.flags() == Seq::new(TOOL_COUNT as nat, |i: int| true),
    {
        let cfg = ToolbarConfig {
            select: true,
            arrow: true,
            rectangle: true,
            circle: true,
            rounded_rect: true,
            line: true,
            pencil: true,
            highlight: true,
            spotlight: true,
            text: true,
            pixelate: true,
            step_marker: true,
            eyedropper: true,
            measurement: true,
        };
        assert(cfg.flags() =~= Seq::new(TOOL_COUNT as nat, |i: int| true));
        cfg
    }
}

} // verus!
