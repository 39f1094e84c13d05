//! The configuration sections that hold no floating-point values: the global
//! hotkey, the tool shortcuts and the toolbar layout, plus the rules that read
//! a configured color name.

use vstd::prelude::*;
use vstd::string::*;
use crate::strings::{eq_ignore_ascii_case, str_eq, str_eq_ignore_ascii_case};
use crate::tools::{tool_at, tool_at_index, ToolKind, TOOL_COUNT};

verus! {

/// The `[hotkey]` section.
pub struct HotkeyConfig {
    pub capture: String,
}

impl Default for HotkeyConfig {
    fn default() -> (cfg: Self)
        ensures
            cfg.capture@ == "Ctrl+Shift+S"@,
    {
        HotkeyConfig { capture: String::from_str("Ctrl+Shift+S") }
    }
}

/// Display symbol of the tool at position `i` in the settings lists.
pub open spec fn tool_symbol(i: int) -> Seq<char> {
    if i == 0 { "->"@ } else if i == 1 { ">>"@ } else if i == 2 { "[]"@ } else if i == 3 { "()"@ }
    else if i == 4 { "[.]"@ } else if i == 5 { "--"@ } else if i == 6 { "~"@ } else if i == 7 { "##"@ }
    else if i == 8 { "**"@ } else if i == 9 { "Aa"@ } else if i == 10 { "::"@ } else if i == 11 { "1."@ }
    else if i == 12 { "/|"@ } else { "|<>"@ }
}

/// Display label of the tool at position `i` in the settings lists.
pub open spec fn tool_label(i: int) -> Seq<char> {
    if i == 0 { "Select / Move"@ } else if i == 1 { "Arrow"@ } else if i == 2 { "Rectangle"@ }
    else if i == 3 { "Circle"@ } else if i == 4 { "Rounded Rect"@ } else if i == 5 { "Line"@ }
    else if i == 6 { "Pencil"@ } else if i == 7 { "Highlight"@ } else if i == 8 { "Spotlight"@ }
    else if i == 9 { "Text"@ } else if i == 10 { "Pixelate"@ } else if i == 11 { "Step Marker"@ }
    else if i == 12 { "Eyedropper"@ } else { "Measurement"@ }
}

/// Default shortcut key of the tool at position `i`.
pub open spec fn default_shortcut(i: int) -> Seq<char> {
    if i == 0 { "v"@ } else if i == 1 { "a"@ } else if i == 2 { "r"@ } else if i == 3 { "c"@ }
    else if i == 4 { "o"@ } else if i == 5 { "l"@ } else if i == 6 { "p"@ } else if i == 7 { "h"@ }
    else if i == 8 { "f"@ } else if i == 9 { "t"@ } else if i == 10 { "b"@ } else if i == 11 { "n"@ }
    else if i == 12 { "i"@ } else { "m"@ }
}

/// The `[shortcuts]` section: one key per tool, in toolbar order.
pub struct ShortcutsConfig {
    pub select: String,
    pub arrow: String,
    pub rectangle: String,
    pub circle: String,
    pub rounded_rect: String,
    pub line: String,
    pub pencil: String,
    pub highlight: String,
    pub spotlight: String,
    pub text: String,
    pub pixelate: String,
    pub step_marker: String,
    pub eyedropper: String,
    pub measurement: String,
}

impl ShortcutsConfig {
    /// The bound keys in toolbar order.
    pub open spec fn keys(&self) -> Seq<Seq<char>> {
        seq![
            self.select@, self.arrow@, self.rectangle@, self.circle@, self.rounded_rect@,
            self.line@, self.pencil@, self.highlight@, self.spotlight@, self.text@,
            self.pixelate@, self.step_marker@, self.eyedropper@, self.measurement@,
        ]
    }
}

impl Default for ShortcutsConfig {
    fn default() -> (cfg: Self)
        ensures
            cfg.keys().len() == TOOL_COUNT,
            forall|i: int| 0 <= i < TOOL_COUNT ==> #[trigger] cfg.keys()[i] == default_shortcut(i),
    {
        ShortcutsConfig {
            select: String::from_str("v"),
            arrow: String::from_str("a"),
            rectangle: String::from_str("r"),
            circle: String::from_str("c"),
            rounded_rect: String::from_str("o"),
            line: String::from_str("l"),
            pencil: String::from_str("p"),
            highlight: String::from_str("h"),
            spotlight: String::from_str("f"),
            text: String::from_str("t"),
            pixelate: String::from_str("b"),
            step_marker: String::from_str("n"),
            eyedropper: String::from_str("i"),
            measurement: String::from_str("m"),
        }
    }
}

/// The tool bound to `key` among `keys[i..]`: the first position whose key
/// equals `key` up to ASCII case.
pub open spec fn tool_bound_from(keys: Seq<Seq<char>>, key: Seq<char>, i: int) -> Option<ToolKind>
    decreases TOOL_COUNT - i,
{
    if i >= TOOL_COUNT || i < 0 {
        None
    } else if eq_ignore_ascii_case(key, keys[i]) {
        Some(tool_at(i))
    } else {
        tool_bound_from(keys, key, i + 1)
    }
}

impl ShortcutsConfig {
    /// Ordered list of (symbol, label, current key) for the settings window.
    pub fn entries(&self) -> (list: Vec<(&'static str, &'static str, &str)>)
        ensures
            list@.len() == TOOL_COUNT,
            forall|i: int| 0 <= i < TOOL_COUNT ==> {
                &&& (#[trigger] list@[i]).0@ == tool_symbol(i)
                &&& list@[i].1@ == tool_label(i)
                &&& list@[i].2@ == self.keys()[i]
            },
    {
        vec![
            ("->", "Select / Move", self.select.as_str()),
            (">>", "Arrow", self.arrow.as_str()),
            ("[]", "Rectangle", self.rectangle.as_str()),
            ("()", "Circle", self.circle.as_str()),
            ("[.]", "Rounded Rect", self.rounded_rect.as_str()),
            ("--", "Line", self.line.as_str()),
            ("~", "Pencil", self.pencil.as_str()),
            ("##", "Highlight", self.highlight.as_str()),
            ("**", "Spotlight", self.spotlight.as_str()),
            ("Aa", "Text", self.text.as_str()),
            ("::", "Pixelate", self.pixelate.as_str()),
            ("1.", "Step Marker", self.step_marker.as_str()),
            ("/|", "Eyedropper", self.eyedropper.as_str()),
            ("|<>", "Measurement", self.measurement.as_str()),
        ]
    }

    /// Set the shortcut of the tool at `index` (0-13); other indices are ignored.
    pub fn set_by_index(&mut self, index: usize, key: String)
        ensures
            final(self).keys() == if index < TOOL_COUNT {
                old(self).keys().update(index as int, key@)
            } else {
                old(self).keys()
            },
    {
        let ghost k = key@;
        match index {
            0 => self.select = key,
            1 => self.arrow = key,
            2 => self.rectangle = key,
            3 => self.circle = key,
            4 => self.rounded_rect = key,
            5 => self.line = key,
            6 => self.pencil = key,
            7 => self.highlight = key,
            8 => self.spotlight = key,
            9 => self.text = key,
            10 => self.pixelate = key,
            11 => self.step_marker = key,
            12 => self.eyedropper = key,
            13 => self.measurement = key,
            _ => {},
        }
        assert(self.keys() =~= if index < TOOL_COUNT {
            old(self).keys().update(index as int, k)
        } else {
            old(self).keys()
        });
    }

    /// The tool whose shortcut is `key` (ASCII case-insensitive, so Caps Lock
    /// does not disable shortcuts); the first tool in toolbar order wins.
    pub fn tool_for_key(&self, key: &str) -> (tool: Option<ToolKind>)
        ensures
            tool == tool_bound_from(self.keys(), key@, 0),
    {
        let keys: [&str; 14] = [
            self.select.as_str(), self.arrow.as_str(), self.rectangle.as_str(),
            self.circle.as_str(), self.rounded_rect.as_str(), self.line.as_str(),
            self.pencil.as_str(), self.highlight.as_str(), self.spotlight.as_str(),
            self.text.as_str(), self.pixelate.as_str(), self.step_marker.as_str(),
            self.eyedropper.as_str(), self.measurement.as_str(),
        ];
        assert(keys@.map_values(|s: &str| s@) =~= self.keys());
        let mut i: usize = 0;
        while i < TOOL_COUNT
            invariant
                i <= TOOL_COUNT,
                keys@.map_values(|s: &str| s@) == self.keys(),
                tool_bound_from(self.keys(), key@, 0) == tool_bound_from(self.keys(), key@, i as int),
            decreases TOOL_COUNT - i,
        {
            assert(keys@.map_values(|s: &str| s@)[i as int] == keys[i as int]@);
            if str_eq_ignore_ascii_case(key, keys[i]) {
                return Some(tool_at_index(i));
            }
            i += 1;
        }
        None
    }
}


/// A hex digit (either case).
pub open spec fn is_hex_digit(c: char) -> bool {
    ('0' <= c && c <= '9') || ('a' <= c && c <= 'f') || ('A' <= c && c <= 'F')
}

/// Value of a hex digit.
pub open spec fn hex_value(c: char) -> int {
    if '0' <= c && c <= '9' {
        c as int - '0' as int
    } else if 'a' <= c && c <= 'f' {
        c as int - 'a' as int + 10
    } else {
        c as int - 'A' as int + 10
    }
}

/// The color written `#rrggbb`, as its three channels; `None` for anything else.
pub open spec fn parse_hex_spec(s: Seq<char>) -> Option<(u8, u8, u8)> {
    if s.len() == 7 && s[0] == '#' && (forall|i: int| 1 <= i < 7 ==> is_hex_digit(#[trigger] s[i])) {
        Some((
            (hex_value(s[1]) * 16 + hex_value(s[2])) as u8,
            (hex_value(s[3]) * 16 + hex_value(s[4])) as u8,
            (hex_value(s[5]) * 16 + hex_value(s[6])) as u8,
        ))
    } else {
        None
    }
}

fn hex_digit_value(c: char) -> (v: Option<u8>)
    ensures
        v is Some <==> is_hex_digit(c),
        v is Some ==> v.unwrap() as int == hex_value(c) && v.unwrap() < 16,
{
    if '0' <= c && c <= '9' {
        Some((c as u8) - ('0' as u8))
    } else if 'a' <= c && c <= 'f' {
        Some((c as u8) - ('a' as u8) + 10)
    } else if 'A' <= c && c <= 'F' {
        Some((c as u8) - ('A' as u8) + 10)
    } else {
        None
    }
}

/// Parse a `#rrggbb` hex string into its red, green and blue channels.
pub fn parse_hex_rgb(s: &str) -> (rgb: Option<(u8, u8, u8)>)
    ensures
        rgb == parse_hex_spec(s@),
{
    let n = s.unicode_len();
    if n != 7 || s.get_char(0) != '#' {
        return None;
    }
    let mut digits: Vec<u8> = Vec::new();
    let mut i: usize = 1;
    while i < 7
        invariant
            n == s@.len(),
            n == 7,
            s@[0] == '#',
            1 <= i <= 7,
            digits@.len() == i - 1,
            forall|k: int| 1 <= k < i ==> is_hex_digit(#[trigger] s@[k]),
            forall|k: int| 0 <= k < i - 1 ==> #[trigger] digits@[k] as int == hex_value(s@[k + 1]) && digits@[k] < 16,
        decreases 7 - i,
    {
        match hex_digit_value(s.get_char(i)) {
            Some(v) => digits.push(v),
            None => return None,
        }
        i += 1;
    }
    Some((digits[0] * 16 + digits[1], digits[2] * 16 + digits[3], digits[4] * 16 + digits[5]))
}

/// What a configured default color name resolves to.
#[derive(Debug, Clone, Copy, PartialEq, Eq, Structural)]
pub enum ColorChoice {
    Red,
    Blue,
    Green,
    Yellow,
    White,
    Mauve,
    Peach,
    Teal,
    Sky,
    Lavender,
    /// A `#rrggbb` value.
    Rgb(u8, u8, u8),
}

/// The color a `default_color` setting names: one of the named palette
/// colors, a `#rrggbb` value, or red for anything else.
pub open spec fn color_choice(name: Seq<char>) -> ColorChoice {
    if name == "red"@ {
        ColorChoice::Red
    } else if name == "blue"@ {
        ColorChoice::Blue
    } else if name == "green"@ {
        ColorChoice::Green
    } else if name == "yellow"@ {
        ColorChoice::Yellow
    } else if name == "white"@ {
        ColorChoice::White
    } else if name == "mauve"@ {
        ColorChoice::Mauve
    } else if name == "peach"@ {
        ColorChoice::Peach
    } else if name == "teal"@ {
        ColorChoice::Teal
    } else if name == "sky"@ {
        ColorChoice::Sky
    } else if name == "lavender"@ {
        ColorChoice::Lavender
    } else {
        match parse_hex_spec(name) {
            Some((r, g, b)) => ColorChoice::Rgb(r, g, b),
            None => ColorChoice::Red,
        }
    }
}

/// Resolve the configured `default_color` string. Accepts the named palette
/// colors or a hex value like `#6bdcff`; falls back to red.
pub fn resolve_color_name(name: &str) -> (choice: ColorChoice)
    ensures
        choice == color_choice(name@),
{
    if str_eq(name, "red") {
        ColorChoice::Red
    } else if str_eq(name, "blue") {
        ColorChoice::Blue
    } else if str_eq(name, "green") {
        ColorChoice::Green
    } else if str_eq(name, "yellow") {
        ColorChoice::Yellow
    } else if str_eq(name, "white") {
        ColorChoice::White
    } else if str_eq(name, "mauve") {
        ColorChoice::Mauve
    } else if str_eq(name, "peach") {
        ColorChoice::Peach
    } else if str_eq(name, "teal") {
        ColorChoice::Teal
    } else if str_eq(name, "sky") {
        ColorChoice::Sky
    } else if str_eq(name, "lavender") {
        ColorChoice::Lavender
    } else {
        match parse_hex_rgb(name) {
            Some((r, g, b)) => ColorChoice::Rgb(r, g, b),
            None => ColorChoice::Red,
        }
    }
}

} // verus!
