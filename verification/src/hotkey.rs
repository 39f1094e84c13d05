//! Parsing of global-hotkey bindings such as `Ctrl+Shift+S`, and building
//! such a binding from a pressed key.

use vstd::prelude::*;
use vstd::string::*;
use crate::strings::{
    all_ascii_alnum, ascii_lower, ascii_lower_seq, free_of, join_on, lemma_split_join, ascii_upper, is_ascii_alpha, is_ascii_digit, lowercased,
    push_char, split_on, split_str, str_eq, to_ascii_lower, to_ascii_upper, to_lowercase, trim,
    trimmed, views, lemma_trim_keeps_alnum, all_ascii, lemma_trim_keeps_ascii,
};

verus! {

/// Modifier keys of a hotkey.
#[derive(Debug, Clone, Copy, PartialEq, Eq, Structural)]
pub struct Modifiers {
    pub ctrl: bool,
    pub shift: bool,
    pub alt: bool,
    pub super_key: bool,
}

impl Modifiers {
    /// No modifier.
    pub fn empty() -> (m: Self)
        ensures
            m == (Modifiers { ctrl: false, shift: false, alt: false, super_key: false }),
    {
        Modifiers { ctrl: false, shift: false, alt: false, super_key: false }
    }

    /// The Control modifier alone.
    pub fn control() -> (m: Self)
        ensures
            m == (Modifiers { ctrl: true, shift: false, alt: false, super_key: false }),
    {
        Modifiers { ctrl: true, shift: false, alt: false, super_key: false }
    }

    /// The Shift modifier alone.
    pub fn shift() -> (m: Self)
        ensures
            m == (Modifiers { ctrl: false, shift: true, alt: false, super_key: false }),
    {
        Modifiers { ctrl: false, shift: true, alt: false, super_key: false }
    }

    /// The Alt modifier alone.
    pub fn alt() -> (m: Self)
        ensures
            m == (Modifiers { ctrl: false, shift: false, alt: true, super_key: false }),
    {
        Modifiers { ctrl: false, shift: false, alt: true, super_key: false }
    }

    /// The Super (Windows/Meta) modifier alone.
    pub fn super_mod() -> (m: Self)
        ensures
            m == (Modifiers { ctrl: false, shift: false, alt: false, super_key: true }),
    {
        Modifiers { ctrl: false, shift: false, alt: false, super_key: true }
    }

    /// Every modifier of `other` is also held in `self`.
    pub fn contains(&self, other: Modifiers) -> (r: bool)
        ensures
            r == ((other.ctrl ==> self.ctrl) && (other.shift ==> self.shift)
                && (other.alt ==> self.alt) && (other.super_key ==> self.super_key)),
    {
        (!other.ctrl || self.ctrl) && (!other.shift || self.shift) && (!other.alt || self.alt)
            && (!other.super_key || self.super_key)
    }

    /// No modifier is held.
    pub fn is_empty(&self) -> (r: bool)
        ensures
            r == !(self.ctrl || self.shift || self.alt || self.super_key),
    {
        !(self.ctrl || self.shift || self.alt || self.super_key)
    }
}

/// The non-modifier key of a hotkey.
#[derive(Debug, Clone, Copy, PartialEq, Eq, Structural)]
pub enum Code {
    KeyA,
    KeyB,
    KeyC,
    KeyD,
    KeyE,
    KeyF,
    KeyG,
    KeyH,
    KeyI,
    KeyJ,
    KeyK,
    KeyL,
    KeyM,
    KeyN,
    KeyO,
    KeyP,
    KeyQ,
    KeyR,
    KeyS,
    KeyT,
    KeyU,
    KeyV,
    KeyW,
    KeyX,
    KeyY,
    KeyZ,
    Digit0,
    Digit1,
    Digit2,
    Digit3,
    Digit4,
    Digit5,
    Digit6,
    Digit7,
    Digit8,
    Digit9,
    F1,
    F2,
    F3,
    F4,
    F5,
    F6,
    F7,
    F8,
    F9,
    F10,
    F11,
    F12,
    PrintScreen,
}

/// The key of the `i`-th letter of the alphabet (`i` in 0..26).
pub open spec fn letter_code(i: int) -> Code {
    if i == 0 { Code::KeyA } else if i == 1 { Code::KeyB } else if i == 2 { Code::KeyC } else if i == 3 { Code::KeyD } else if i == 4 { Code::KeyE } else if i == 5 { Code::KeyF } else if i == 6 { Code::KeyG } else if i == 7 { Code::KeyH } else if i == 8 { Code::KeyI } else if i == 9 { Code::KeyJ } else if i == 10 { Code::KeyK } else if i == 11 { Code::KeyL } else if i == 12 { Code::KeyM } else if i == 13 { Code::KeyN } else if i == 14 { Code::KeyO } else if i == 15 { Code::KeyP } else if i == 16 { Code::KeyQ } else if i == 17 { Code::KeyR } else if i == 18 { Code::KeyS } else if i == 19 { Code::KeyT } else if i == 20 { Code::KeyU } else if i == 21 { Code::KeyV } else if i == 22 { Code::KeyW } else if i == 23 { Code::KeyX } else if i == 24 { Code::KeyY } else { Code::KeyZ }
}

/// The key of digit `d` (0..10).
pub open spec fn digit_code(d: int) -> Code {
    if d == 0 { Code::Digit0 } else if d == 1 { Code::Digit1 } else if d == 2 { Code::Digit2 } else if d == 3 { Code::Digit3 } else if d == 4 { Code::Digit4 } else if d == 5 { Code::Digit5 } else if d == 6 { Code::Digit6 } else if d == 7 { Code::Digit7 } else if d == 8 { Code::Digit8 } else { Code::Digit9 }
}

/// The function key `Fn` (`n` in 1..=12).
pub open spec fn function_code(n: int) -> Code {
    if n == 1 { Code::F1 } else if n == 2 { Code::F2 } else if n == 3 { Code::F3 } else if n == 4 { Code::F4 } else if n == 5 { Code::F5 } else if n == 6 { Code::F6 } else if n == 7 { Code::F7 } else if n == 8 { Code::F8 } else if n == 9 { Code::F9 } else if n == 10 { Code::F10 } else if n == 11 { Code::F11 } else { Code::F12 }
}

/// The key of an ASCII letter, in either case.
pub fn letter_to_code(c: char) -> (code: Option<Code>)
    ensures
        code == if is_ascii_alpha(c) { Some(letter_code(ascii_lower(c) as int - 'a' as int)) } else { None },
{
    match to_ascii_lower(c) {
        'a' => Some(Code::KeyA),
        'b' => Some(Code::KeyB),
        'c' => Some(Code::KeyC),
        'd' => Some(Code::KeyD),
        'e' => Some(Code::KeyE),
        'f' => Some(Code::KeyF),
        'g' => Some(Code::KeyG),
        'h' => Some(Code::KeyH),
        'i' => Some(Code::KeyI),
        'j' => Some(Code::KeyJ),
        'k' => Some(Code::KeyK),
        'l' => Some(Code::KeyL),
        'm' => Some(Code::KeyM),
        'n' => Some(Code::KeyN),
        'o' => Some(Code::KeyO),
        'p' => Some(Code::KeyP),
        'q' => Some(Code::KeyQ),
        'r' => Some(Code::KeyR),
        's' => Some(Code::KeyS),
        't' => Some(Code::KeyT),
        'u' => Some(Code::KeyU),
        'v' => Some(Code::KeyV),
        'w' => Some(Code::KeyW),
        'x' => Some(Code::KeyX),
        'y' => Some(Code::KeyY),
        'z' => Some(Code::KeyZ),
        _ => None,
    }
}

/// The key of an ASCII digit.
pub fn digit_to_code(c: char) -> (code: Option<Code>)
    ensures
        code == if is_ascii_digit(c) { Some(digit_code(c as int - '0' as int)) } else { None },
{
    match c {
        '0' => Some(Code::Digit0),
        '1' => Some(Code::Digit1),
        '2' => Some(Code::Digit2),
        '3' => Some(Code::Digit3),
        '4' => Some(Code::Digit4),
        '5' => Some(Code::Digit5),
        '6' => Some(Code::Digit6),
        '7' => Some(Code::Digit7),
        '8' => Some(Code::Digit8),
        '9' => Some(Code::Digit9),
        _ => None,
    }
}

/// What one part of a binding (already trimmed and lowercased) stands for.
#[derive(Debug, Clone, Copy, PartialEq, Eq, Structural)]
pub enum BindingToken {
    Ctrl,
    Shift,
    Alt,
    Super,
    Key(Code),
    Unknown,
}

/// The meaning of one trimmed, lowercased part of a binding.
pub open spec fn token_of(part: Seq<char>) -> BindingToken {
    if part == "ctrl"@ || part == "control"@ {
        BindingToken::Ctrl
    } else if part == "shift"@ {
        BindingToken::Shift
    } else if part == "alt"@ {
        BindingToken::Alt
    } else if part == "super"@ || part == "meta"@ || part == "win"@ {
        BindingToken::Super
    } else if part == "printscreen"@ {
        BindingToken::Key(Code::PrintScreen)
    } else if part == "f1"@ {
        BindingToken::Key(Code::F1)
    } else if part == "f2"@ {
        BindingToken::Key(Code::F2)
    } else if part == "f3"@ {
        BindingToken::Key(Code::F3)
    } else if part == "f4"@ {
        BindingToken::Key(Code::F4)
    } else if part == "f5"@ {
        BindingToken::Key(Code::F5)
    } else if part == "f6"@ {
        BindingToken::Key(Code::F6)
    } else if part == "f7"@ {
        BindingToken::Key(Code::F7)
    } else if part == "f8"@ {
        BindingToken::Key(Code::F8)
    } else if part == "f9"@ {
        BindingToken::Key(Code::F9)
    } else if part == "f10"@ {
        BindingToken::Key(Code::F10)
    } else if part == "f11"@ {
        BindingToken::Key(Code::F11)
    } else if part == "f12"@ {
        BindingToken::Key(Code::F12)
    } else if part.len() == 1 && is_ascii_alpha(part[0]) {
        BindingToken::Key(letter_code(ascii_lower(part[0]) as int - 'a' as int))
    } else if part.len() == 1 && is_ascii_digit(part[0]) {
        BindingToken::Key(digit_code(part[0] as int - '0' as int))
    } else {
        BindingToken::Unknown
    }
}

/// Classify one trimmed, lowercased part of a binding.
pub fn classify_part(part: &str) -> (t: BindingToken)
    ensures
        t == token_of(part@),
{
    if str_eq(part, "ctrl") || str_eq(part, "control") {
        BindingToken::Ctrl
    } else if str_eq(part, "shift") {
        BindingToken::Shift
    } else if str_eq(part, "alt") {
        BindingToken::Alt
    } else if str_eq(part, "super") || str_eq(part, "meta") || str_eq(part, "win") {
        BindingToken::Super
    } else if str_eq(part, "printscreen") {
        BindingToken::Key(Code::PrintScreen)
    } else if str_eq(part, "f1") {
        BindingToken::Key(Code::F1)
    } else if str_eq(part, "f2") {
        BindingToken::Key(Code::F2)
    } else if str_eq(part, "f3") {
        BindingToken::Key(Code::F3)
    } else if str_eq(part, "f4") {
        BindingToken::Key(Code::F4)
    } else if str_eq(part, "f5") {
        BindingToken::Key(Code::F5)
    } else if str_eq(part, "f6") {
        BindingToken::Key(Code::F6)
    } else if str_eq(part, "f7") {
        BindingToken::Key(Code::F7)
    } else if str_eq(part, "f8") {
        BindingToken::Key(Code::F8)
    } else if str_eq(part, "f9") {
        BindingToken::Key(Code::F9)
    } else if str_eq(part, "f10") {
        BindingToken::Key(Code::F10)
    } else if str_eq(part, "f11") {
        BindingToken::Key(Code::F11)
    } else if str_eq(part, "f12") {
        BindingToken::Key(Code::F12)
    } else if part.unicode_len() == 1 {
        let c = part.get_char(0);
        match letter_to_code(c) {
            Some(code) => BindingToken::Key(code),
            None => match digit_to_code(c) {
                Some(code) => BindingToken::Key(code),
                None => BindingToken::Unknown,
            },
        }
    } else {
        BindingToken::Unknown
    }
}

/// `mods` with the modifier that `token` names added.
pub open spec fn add_modifier(mods: Modifiers, token: BindingToken) -> Modifiers {
    match token {
        BindingToken::Ctrl => Modifiers { ctrl: true, ..mods },
        BindingToken::Shift => Modifiers { shift: true, ..mods },
        BindingToken::Alt => Modifiers { alt: true, ..mods },
        BindingToken::Super => Modifiers { super_key: true, ..mods },
        _ => mods,
    }
}

/// Reading parts `i..` of a binding, with the modifiers and key seen so far:
/// the modifiers and the last key named, or the error message of the first
/// unknown part, or of a binding without a key.
pub open spec fn parse_from(parts: Seq<Seq<char>>, i: int, mods: Modifiers, key: Option<Code>)
    -> Result<(Modifiers, Code), Seq<char>>
    decreases parts.len() - i,
{
    if i >= parts.len() || i < 0 {
        match key {
            Some(k) => Ok((mods, k)),
            None => Err("No key code found in hotkey binding"@),
        }
    } else {
        match token_of(parts[i]) {
            BindingToken::Unknown => Err("Unknown hotkey part: "@ + parts[i]),
            BindingToken::Key(k) => parse_from(parts, i + 1, mods, Some(k)),
            t => parse_from(parts, i + 1, add_modifier(mods, t), key),
        }
    }
}

/// The hotkey that trimmed, lowercased binding parts describe.
pub open spec fn parse_parts_spec(parts: Seq<Seq<char>>) -> Result<(Modifiers, Code), Seq<char>> {
    parse_from(parts, 0, Modifiers { ctrl: false, shift: false, alt: false, super_key: false }, None)
}

/// The exec result agrees with the spec result, messages compared by view.
pub open spec fn same_outcome(r: Result<(Modifiers, Code), String>, s: Result<(Modifiers, Code), Seq<char>>) -> bool {
    match (r, s) {
        (Ok(a), Ok(b)) => a == b,
        (Err(e), Err(f)) => e@ == f,
        _ => false,
    }
}

/// Read a hotkey from binding parts that are already trimmed and lowercased:
/// modifiers may come in any order, the last key named wins.
pub fn parse_binding_parts(parts: &Vec<String>) -> (r: Result<(Modifiers, Code), String>)
    ensures
        same_outcome(r, parse_parts_spec(views(parts@))),
{
    let ghost ps = views(parts@);
    let mut mods = Modifiers::empty();
    let mut key: Option<Code> = None;
    let mut i: usize = 0;
    while i < parts.len()
        invariant
            i <= parts@.len(),
            ps == views(parts@),
            parse_parts_spec(ps) == parse_from(ps, i as int, mods, key),
        decreases parts@.len() - i,
    {
        let part = parts[i].as_str();
        assert(ps[i as int] == part@);
        let t = classify_part(part);
        match t {
            BindingToken::Ctrl => mods = Modifiers { ctrl: true, ..mods },
            BindingToken::Shift => mods = Modifiers { shift: true, ..mods },
            BindingToken::Alt => mods = Modifiers { alt: true, ..mods },
            BindingToken::Super => mods = Modifiers { super_key: true, ..mods },
            BindingToken::Key(k) => key = Some(k),
            BindingToken::Unknown => {
                let mut msg = String::from_str("Unknown hotkey part: ");
                msg.append(part);
                return Err(msg);
            },
        }
        i += 1;
    }
    match key {
        Some(k) => Ok((mods, k)),
        None => Err(String::from_str("No key code found in hotkey binding")),
    }
}

/// Each part trimmed, then lowercased.
pub open spec fn normalized(parts: Seq<Seq<char>>) -> Seq<Seq<char>> {
    Seq::new(parts.len(), |i: int| lowercased(trimmed(parts[i])))
}

/// The hotkey a binding string such as `Ctrl+Shift+S` describes: its parts
/// are separated by `+`, trimmed and compared without regard to case.
pub open spec fn binding_spec(binding: Seq<char>) -> Result<(Modifiers, Code), Seq<char>> {
    parse_parts_spec(normalized(split_on(binding, '+')))
}

/// Parse a binding string like `Ctrl+Shift+S` into its modifiers and key.
pub fn parse_binding(binding: &str) -> (r: Result<(Modifiers, Code), String>)
    ensures
        same_outcome(r, binding_spec(binding@)),
        forall|i: int|
            0 <= i < split_on(binding@, '+').len() && all_ascii_alnum(split_on(binding@, '+')[i])
                ==> #[trigger] normalized(split_on(binding@, '+'))[i] == ascii_lower_seq(split_on(binding@, '+')[i]),
        forall|i: int|
            0 <= i < split_on(binding@, '+').len() && all_ascii(trimmed(split_on(binding@, '+')[i]))
                ==> #[trigger] normalized(split_on(binding@, '+'))[i] == ascii_lower_seq(trimmed(split_on(binding@, '+')[i])),
        forall|i: int|
            0 <= i < split_on(binding@, '+').len() && all_ascii(split_on(binding@, '+')[i])
                ==> #[trigger] normalized(split_on(binding@, '+'))[i] == ascii_lower_seq(trimmed(split_on(binding@, '+')[i])),
{
    let raw = split_str(binding, '+');
    let mut parts: Vec<String> = Vec::new();
    let mut i: usize = 0;
    while i < raw.len()
        invariant
            i <= raw@.len(),
            views(raw@) == split_on(binding@, '+'),
            views(parts@) == normalized(views(raw@)).take(i as int),
            forall|k: int|
                0 <= k < i && all_ascii_alnum(views(raw@)[k])
                    ==> #[trigger] normalized(views(raw@))[k] == ascii_lower_seq(views(raw@)[k]),
            forall|k: int|
                0 <= k < i && all_ascii(trimmed(views(raw@)[k]))
                    ==> #[trigger] normalized(views(raw@))[k] == ascii_lower_seq(trimmed(views(raw@)[k])),
        decreases raw@.len() - i,
    {
        let t = trim(raw[i].as_str());
        proof {
            if all_ascii_alnum(raw@[i as int]@) {
                lemma_trim_keeps_alnum(raw@[i as int]@);
            }
        }
        let p = to_lowercase(t);
        assert(raw@[i as int]@ == views(raw@)[i as int]);
        assert(p@ == normalized(views(raw@))[i as int]);
        let ghost before = views(parts@);
        parts.push(p);
        assert(views(parts@) =~= before.push(p@));
        i += 1;
        assert(views(parts@) =~= normalized(views(raw@)).take(i as int));
    }
    assert(normalized(views(raw@)).take(raw@.len() as int) =~= normalized(views(raw@)));
    assert forall|k: int|
        0 <= k < split_on(binding@, '+').len() && all_ascii(split_on(binding@, '+')[k])
            implies #[trigger] normalized(split_on(binding@, '+'))[k] == ascii_lower_seq(trimmed(split_on(binding@, '+')[k])) by {
        lemma_trim_keeps_ascii(split_on(binding@, '+')[k]);
    }
    parse_binding_parts(&parts)
}

/// The pieces of a recorded binding contain no `+` and only ASCII letters
/// and digits, so the binding splits back into exactly those pieces.
pub proof fn lemma_recorded_pieces(mods: Modifiers, key: KeyInput)
    requires
        key_part(key) is Some,
    ensures
        split_on(join_on(binding_parts(mods, key_part(key).unwrap()), '+'), '+')
            == binding_parts(mods, key_part(key).unwrap()),
        forall|i: int| 0 <= i < binding_parts(mods, key_part(key).unwrap()).len()
            ==> all_ascii_alnum(#[trigger] binding_parts(mods, key_part(key).unwrap())[i]),
{
    reveal_strlit("Ctrl");
    reveal_strlit("Shift");
    reveal_strlit("Alt");
    reveal_strlit("Super");
    reveal_strlit("PrintScreen");
    reveal_strlit("F1");
    reveal_strlit("F2");
    reveal_strlit("F3");
    reveal_strlit("F4");
    reveal_strlit("F5");
    reveal_strlit("F6");
    reveal_strlit("F7");
    reveal_strlit("F8");
    reveal_strlit("F9");
    reveal_strlit("F10");
    reveal_strlit("F11");
    reveal_strlit("F12");
    let k = key_part(key).unwrap();
    let parts = binding_parts(mods, k);
    assert forall|i: int| 0 <= i < parts.len() implies all_ascii_alnum(#[trigger] parts[i]) && free_of(parts[i], '+') by {
        let p = parts[i];
        assert forall|j: int| 0 <= j < p.len() implies crate::strings::is_ascii_alnum(#[trigger] p[j]) && p[j] != '+' by {
        }
    }
    lemma_split_join(parts, '+');
}

/// A recorded binding, once split, trimmed and lowercased, reads back as the
/// modifiers and key it was recorded from.
pub proof fn lemma_recorded_binding_reads_back(mods: Modifiers, key: KeyInput)
    requires
        key_part(key) is Some,
        has_strong_modifier(mods),
    ensures
        parse_parts_spec(Seq::new(
            binding_parts(mods, key_part(key).unwrap()).len(),
            |i: int| ascii_lower_seq(binding_parts(mods, key_part(key).unwrap())[i]),
        )) == Ok::<(Modifiers, Code), Seq<char>>((mods, key_code(key))),
{
    reveal_strlit("Ctrl");
    reveal_strlit("Shift");
    reveal_strlit("Alt");
    reveal_strlit("Super");
    reveal_strlit("PrintScreen");
    reveal_strlit("control");
    reveal_strlit("meta");
    reveal_strlit("win");
    reveal_strlit("ctrl");
    reveal_strlit("shift");
    reveal_strlit("alt");
    reveal_strlit("super");
    reveal_strlit("printscreen");
    reveal_strlit("F1");
    reveal_strlit("f1");
    reveal_strlit("F2");
    reveal_strlit("f2");
    reveal_strlit("F3");
    reveal_strlit("f3");
    reveal_strlit("F4");
    reveal_strlit("f4");
    reveal_strlit("F5");
    reveal_strlit("f5");
    reveal_strlit("F6");
    reveal_strlit("f6");
    reveal_strlit("F7");
    reveal_strlit("f7");
    reveal_strlit("F8");
    reveal_strlit("f8");
    reveal_strlit("F9");
    reveal_strlit("f9");
    reveal_strlit("F10");
    reveal_strlit("f10");
    reveal_strlit("F11");
    reveal_strlit("f11");
    reveal_strlit("F12");
    reveal_strlit("f12");
    reveal_with_fuel(parse_from, 6);
    let k = key_part(key).unwrap();
    let parts = binding_parts(mods, k);
    let lowered = Seq::new(parts.len(), |i: int| ascii_lower_seq(parts[i]));
    assert(ascii_lower_seq("Ctrl"@) =~= "ctrl"@);
    assert(ascii_lower_seq("Shift"@) =~= "shift"@);
    assert(ascii_lower_seq("Alt"@) =~= "alt"@);
    assert(ascii_lower_seq("Super"@) =~= "super"@);
    assert("super"@[1] != "shift"@[1]);
    assert(token_of("ctrl"@) == BindingToken::Ctrl);
    assert(token_of("shift"@) == BindingToken::Shift);
    assert(token_of("alt"@) == BindingToken::Alt);
    assert(token_of("super"@) == BindingToken::Super);
    assert(lowered =~= (if mods.ctrl { seq!["ctrl"@] } else { Seq::empty() })
        + (if mods.shift { seq!["shift"@] } else { Seq::empty() })
        + (if mods.alt { seq!["alt"@] } else { Seq::empty() })
        + (if mods.super_key { seq!["super"@] } else { Seq::empty() })
        + seq![ascii_lower_seq(k)]);
    lemma_key_token(key);
}

proof fn lemma_char_case(c: char)
    ensures
        is_ascii_alpha(c) ==> is_ascii_alpha(ascii_lower(ascii_upper(c)))
            && ascii_lower(ascii_lower(ascii_upper(c))) == ascii_lower(c),
        is_ascii_digit(c) ==> ascii_lower(ascii_upper(c)) == c && !is_ascii_alpha(c),
{
    if 'a' <= c && c <= 'z' {
        let u = ((c as u32) - 32) as char;
        assert(u as u32 == c as u32 - 32);
        assert('A' <= u && u <= 'Z');
        assert(ascii_lower(u) as u32 == c as u32);
    }
}

proof fn lemma_char_key_token(key: KeyInput)
    requires
        key_part(key) is Some,
        key is Character,
    ensures
        token_of(ascii_lower_seq(key_part(key).unwrap())) == BindingToken::Key(key_code(key)),
{
    reveal_strlit("ctrl");
    reveal_strlit("control");
    reveal_strlit("shift");
    reveal_strlit("alt");
    reveal_strlit("super");
    reveal_strlit("meta");
    reveal_strlit("win");
    reveal_strlit("printscreen");
    reveal_strlit("f1");
    reveal_strlit("f2");
    reveal_strlit("f3");
    reveal_strlit("f4");
    reveal_strlit("f5");
    reveal_strlit("f6");
    reveal_strlit("f7");
    reveal_strlit("f8");
    reveal_strlit("f9");
    reveal_strlit("f10");
    reveal_strlit("f11");
    reveal_strlit("f12");
    let k = key_part(key).unwrap();
    let s = key->Character_0;
    let c = s@[0];
    lemma_char_case(c);
    let l = ascii_lower_seq(k);
    assert(l =~= seq![ascii_lower(ascii_upper(c))]);
    if is_ascii_alpha(c) {
        assert(is_ascii_alpha(l[0]));
        assert(ascii_lower(l[0]) == ascii_lower(c));
    } else {
        assert(l[0] == c);
    }
}

proof fn lemma_function_key_token(n: u8)
    requires
        1 <= n <= 12,
    ensures
        token_of(ascii_lower_seq(function_key_name(n as int))) == BindingToken::Key(function_code(n as int)),
{
    reveal_strlit("ctrl");
    reveal_strlit("control");
    reveal_strlit("shift");
    reveal_strlit("alt");
    reveal_strlit("super");
    reveal_strlit("meta");
    reveal_strlit("win");
    reveal_strlit("printscreen");
    reveal_strlit("F1");
    reveal_strlit("f1");
    reveal_strlit("F2");
    reveal_strlit("f2");
    reveal_strlit("F3");
    reveal_strlit("f3");
    reveal_strlit("F4");
    reveal_strlit("f4");
    reveal_strlit("F5");
    reveal_strlit("f5");
    reveal_strlit("F6");
    reveal_strlit("f6");
    reveal_strlit("F7");
    reveal_strlit("f7");
    reveal_strlit("F8");
    reveal_strlit("f8");
    reveal_strlit("F9");
    reveal_strlit("f9");
    reveal_strlit("F10");
    reveal_strlit("f10");
    reveal_strlit("F11");
    reveal_strlit("f11");
    reveal_strlit("F12");
    reveal_strlit("f12");
    if n == 1 {
        assert(ascii_lower_seq("F1"@) =~= "f1"@);
        assert(function_key_name(n as int) == "F1"@);
        assert(token_of("f1"@) == BindingToken::Key(Code::F1));
    } else if n == 2 {
        assert(ascii_lower_seq("F2"@) =~= "f2"@);
        assert(function_key_name(n as int) == "F2"@);
        assert("f2"@[1] != "f1"@[1]);
        assert(token_of("f2"@) == BindingToken::Key(Code::F2));
    } else if n == 3 {
        assert(ascii_lower_seq("F3"@) =~= "f3"@);
        assert(function_key_name(n as int) == "F3"@);
        assert("f3"@[1] != "f1"@[1]);
        assert("f3"@[1] != "f2"@[1]);
        assert(token_of("f3"@) == BindingToken::Key(Code::F3));
    } else if n == 4 {
        assert(ascii_lower_seq("F4"@) =~= "f4"@);
        assert(function_key_name(n as int) == "F4"@);
        assert("f4"@[1] != "f1"@[1]);
        assert("f4"@[1] != "f2"@[1]);
        assert("f4"@[1] != "f3"@[1]);
        assert(token_of("f4"@) == BindingToken::Key(Code::F4));
    } else if n == 5 {
        assert(ascii_lower_seq("F5"@) =~= "f5"@);
        assert(function_key_name(n as int) == "F5"@);
        assert("f5"@[1] != "f1"@[1]);
        assert("f5"@[1] != "f2"@[1]);
        assert("f5"@[1] != "f3"@[1]);
        assert("f5"@[1] != "f4"@[1]);
        assert(token_of("f5"@) == BindingToken::Key(Code::F5));
    } else if n == 6 {
        assert(ascii_lower_seq("F6"@) =~= "f6"@);
        assert(function_key_name(n as int) == "F6"@);
        assert("f6"@[1] != "f1"@[1]);
        assert("f6"@[1] != "f2"@[1]);
        assert("f6"@[1] != "f3"@[1]);
        assert("f6"@[1] != "f4"@[1]);
        assert("f6"@[1] != "f5"@[1]);
        assert(token_of("f6"@) == BindingToken::Key(Code::F6));
    } else if n == 7 {
        assert(ascii_lower_seq("F7"@) =~= "f7"@);
        assert(function_key_name(n as int) == "F7"@);
        assert("f7"@[1] != "f1"@[1]);
        assert("f7"@[1] != "f2"@[1]);
        assert("f7"@[1] != "f3"@[1]);
        assert("f7"@[1] != "f4"@[1]);
        assert("f7"@[1] != "f5"@[1]);
        assert("f7"@[1] != "f6"@[1]);
        assert(token_of("f7"@) == BindingToken::Key(Code::F7));
    } else if n == 8 {
        assert(ascii_lower_seq("F8"@) =~= "f8"@);
        assert(function_key_name(n as int) == "F8"@);
        assert("f8"@[1] != "f1"@[1]);
        assert("f8"@[1] != "f2"@[1]);
        assert("f8"@[1] != "f3"@[1]);
        assert("f8"@[1] != "f4"@[1]);
        assert("f8"@[1] != "f5"@[1]);
        assert("f8"@[1] != "f6"@[1]);
        assert("f8"@[1] != "f7"@[1]);
        assert(token_of("f8"@) == BindingToken::Key(Code::F8));
    } else if n == 9 {
        assert(ascii_lower_seq("F9"@) =~= "f9"@);
        assert(function_key_name(n as int) == "F9"@);
        assert("f9"@[1] != "f1"@[1]);
        assert("f9"@[1] != "f2"@[1]);
        assert("f9"@[1] != "f3"@[1]);
        assert("f9"@[1] != "f4"@[1]);
        assert("f9"@[1] != "f5"@[1]);
        assert("f9"@[1] != "f6"@[1]);
        assert("f9"@[1] != "f7"@[1]);
        assert("f9"@[1] != "f8"@[1]);
        assert(token_of("f9"@) == BindingToken::Key(Code::F9));
    } else if n == 10 {
        assert(ascii_lower_seq("F10"@) =~= "f10"@);
        assert(function_key_name(n as int) == "F10"@);
        assert(token_of("f10"@) == BindingToken::Key(Code::F10));
    } else if n == 11 {
        assert(ascii_lower_seq("F11"@) =~= "f11"@);
        assert(function_key_name(n as int) == "F11"@);
        assert("f11"@[2] != "f10"@[2]);
        assert(token_of("f11"@) == BindingToken::Key(Code::F11));
    } else if n == 12 {
        assert(ascii_lower_seq("F12"@) =~= "f12"@);
        assert(function_key_name(n as int) == "F12"@);
        assert("f12"@[2] != "f10"@[2]);
        assert("f12"@[2] != "f11"@[2]);
        assert(token_of("f12"@) == BindingToken::Key(Code::F12));
    }
}

/// The key part of a recorded binding, lowercased, reads back as its key.
proof fn lemma_key_token(key: KeyInput)
    requires
        key_part(key) is Some,
    ensures
        token_of(ascii_lower_seq(key_part(key).unwrap())) == BindingToken::Key(key_code(key)),
{
    reveal_strlit("ctrl");
    reveal_strlit("control");
    reveal_strlit("shift");
    reveal_strlit("alt");
    reveal_strlit("super");
    reveal_strlit("meta");
    reveal_strlit("win");
    reveal_strlit("printscreen");
    reveal_strlit("PrintScreen");
    reveal_strlit("F1");
    reveal_strlit("f1");
    reveal_strlit("F2");
    reveal_strlit("f2");
    reveal_strlit("F3");
    reveal_strlit("f3");
    reveal_strlit("F4");
    reveal_strlit("f4");
    reveal_strlit("F5");
    reveal_strlit("f5");
    reveal_strlit("F6");
    reveal_strlit("f6");
    reveal_strlit("F7");
    reveal_strlit("f7");
    reveal_strlit("F8");
    reveal_strlit("f8");
    reveal_strlit("F9");
    reveal_strlit("f9");
    reveal_strlit("F10");
    reveal_strlit("f10");
    reveal_strlit("F11");
    reveal_strlit("f11");
    reveal_strlit("F12");
    reveal_strlit("f12");
    let k = key_part(key).unwrap();
    match key {
        KeyInput::Character(s) => {
            lemma_char_key_token(key);
        },
        KeyInput::Function(n) => {
            lemma_function_key_token(n);
        },
        KeyInput::PrintScreen => {
            assert(ascii_lower_seq("PrintScreen"@) =~= "printscreen"@);
        },
        KeyInput::Other => {},
    }
}

/// A key press as the binding recorder sees it.
pub enum KeyInput {
    /// A key that types text; the text it types.
    Character(String),
    /// Function key `F<n>`.
    Function(u8),
    PrintScreen,
    /// Any other named key.
    Other,
}

/// Display name of function key `n` (1..=12).
pub open spec fn function_key_name(n: int) -> Seq<char> {
    if n == 1 { "F1"@ } else if n == 2 { "F2"@ } else if n == 3 { "F3"@ } else if n == 4 { "F4"@ } else if n == 5 { "F5"@ } else if n == 6 { "F6"@ } else if n == 7 { "F7"@ } else if n == 8 { "F8"@ } else if n == 9 { "F9"@ } else if n == 10 { "F10"@ } else if n == 11 { "F11"@ } else { "F12"@ }
}

/// The key part of a binding recorded from `key`: an ASCII letter or digit
/// typed alone (letters in uppercase), F1-F12 or PrintScreen.
pub open spec fn key_part(key: KeyInput) -> Option<Seq<char>> {
    match key {
        KeyInput::Character(s) => if s@.len() == 1 && (is_ascii_alpha(s@[0]) || is_ascii_digit(s@[0])) {
            Some(seq![ascii_upper(s@[0])])
        } else {
            None
        },
        KeyInput::Function(n) => if 1 <= n <= 12 {
            Some(function_key_name(n as int))
        } else {
            None
        },
        KeyInput::PrintScreen => Some("PrintScreen"@),
        KeyInput::Other => None,
    }
}

/// The hotkey key that `key` stands for.
pub open spec fn key_code(key: KeyInput) -> Code {
    match key {
        KeyInput::Character(s) => if is_ascii_alpha(s@[0]) {
            letter_code(ascii_lower(s@[0]) as int - 'a' as int)
        } else {
            digit_code(s@[0] as int - '0' as int)
        },
        KeyInput::Function(n) => function_code(n as int),
        _ => Code::PrintScreen,
    }
}

/// The parts of a recorded binding: the held modifiers in the order Ctrl,
/// Shift, Alt, Super, then the key.
pub open spec fn binding_parts(mods: Modifiers, key: Seq<char>) -> Seq<Seq<char>> {
    (if mods.ctrl { seq!["Ctrl"@] } else { Seq::empty() })
    + (if mods.shift { seq!["Shift"@] } else { Seq::empty() })
    + (if mods.alt { seq!["Alt"@] } else { Seq::empty() })
    + (if mods.super_key { seq!["Super"@] } else { Seq::empty() })
    + seq![key]
}

/// Ctrl, Alt or Super is held: a hotkey with only Shift would swallow
/// normal typing.
pub open spec fn has_strong_modifier(mods: Modifiers) -> bool {
    mods.ctrl || mods.alt || mods.super_key
}

/// The binding string recorded for `mods` and `key`, if any.
pub open spec fn recorded_binding(mods: Modifiers, key: KeyInput) -> Option<Seq<char>> {
    match key_part(key) {
        Some(k) => if has_strong_modifier(mods) {
            Some(crate::strings::join_on(binding_parts(mods, k), '+'))
        } else {
            None
        },
        None => None,
    }
}

fn key_part_string(key: &KeyInput) -> (part: Option<String>)
    ensures
        match (part, key_part(*key)) {
            (Some(p), Some(k)) => p@ == k,
            (None, None) => true,
            _ => false,
        },
{
    match key {
        KeyInput::Character(s) => {
            if s.unicode_len() != 1 {
                return None;
            }
            let c = s.get_char(0);
            if ('a' <= c && c <= 'z') || ('A' <= c && c <= 'Z') || ('0' <= c && c <= '9') {
                let mut p = String::new();
                push_char(&mut p, to_ascii_upper(c));
                Some(p)
            } else {
                None
            }
        },
        KeyInput::Function(n) => {
            let n = *n;
            if 1 <= n && n <= 12 {
                Some(match n {
        1 => String::from_str("F1"),
        2 => String::from_str("F2"),
        3 => String::from_str("F3"),
        4 => String::from_str("F4"),
        5 => String::from_str("F5"),
        6 => String::from_str("F6"),
        7 => String::from_str("F7"),
        8 => String::from_str("F8"),
        9 => String::from_str("F9"),
        10 => String::from_str("F10"),
        11 => String::from_str("F11"),
                    _ => String::from_str("F12"),
                })
            } else {
                None
            }
        },
        KeyInput::PrintScreen => Some(String::from_str("PrintScreen")),
        KeyInput::Other => None,
    }
}

/// Build a hotkey binding string (e.g. `Ctrl+Shift+S`) from the held
/// modifiers and a pressed key. `None` for keys that cannot be a global
/// hotkey, or when no Ctrl/Alt/Super modifier is held.
pub fn binding_from_key(mods: Modifiers, key: &KeyInput) -> (binding: Option<String>)
    ensures
        match (binding, recorded_binding(mods, *key)) {
            (Some(b), Some(r)) => b@ == r,
            (None, None) => true,
            _ => false,
        },
        binding is Some ==> binding_spec(binding.unwrap()@) == Ok::<(Modifiers, Code), Seq<char>>((mods, key_code(*key))),
        (mods.ctrl || mods.alt || mods.super_key) && (*key matches KeyInput::Character(s) && s@.len() == 1
            && (('a' <= s@[0] && s@[0] <= 'z') || ('A' <= s@[0] && s@[0] <= 'Z') || ('0' <= s@[0] && s@[0] <= '9')))
            ==> binding is Some,
{
    let key_part = match key_part_string(key) {
        Some(p) => p,
        None => return None,
    };
    if !(mods.ctrl || mods.alt || mods.super_key) {
        return None;
    }
    let mut parts: Vec<String> = Vec::new();
    if mods.ctrl {
        parts.push(String::from_str("Ctrl"));
    }
    if mods.shift {
        parts.push(String::from_str("Shift"));
    }
    if mods.alt {
        parts.push(String::from_str("Alt"));
    }
    if mods.super_key {
        parts.push(String::from_str("Super"));
    }
    let ghost kp = key_part@;
    parts.push(key_part);
    assert(views(parts@) =~= binding_parts(mods, kp));
    let binding = crate::strings::join_str(&parts, '+');
    proof {
        lemma_recorded_pieces(mods, *key);
    }
    // Final validation through the binding parser.
    let parsed = parse_binding(binding.as_str());
    proof {
        let parts = binding_parts(mods, kp);
        assert(normalized(parts) =~= Seq::new(parts.len(), |i: int| ascii_lower_seq(parts[i])));
        lemma_recorded_binding_reads_back(mods, *key);
    }
    match parsed {
        Ok(_) => Some(binding),
        Err(_) => None,
    }
}

/// Every ASCII letter or digit typed alone, with Ctrl, Alt or Super held,
/// is recorded as a binding, and that binding names the held modifiers and
/// the key: its last part is the uppercase of the typed character.
pub proof fn lemma_letters_and_digits_are_recorded(mods: Modifiers, s: String)
    requires
        mods.ctrl || mods.alt || mods.super_key,
        s@.len() == 1,
        ('a' <= s@[0] && s@[0] <= 'z') || ('A' <= s@[0] && s@[0] <= 'Z') || ('0' <= s@[0] && s@[0] <= '9'),
    ensures
        recorded_binding(mods, KeyInput::Character(s)) is Some,
        recorded_binding(mods, KeyInput::Character(s)).unwrap()
            == crate::strings::join_on(binding_parts(mods, seq![ascii_upper(s@[0])]), '+'),
{
}

/// The binding used when the configured one cannot be registered.
pub open spec fn default_binding() -> Seq<char> {
    "Ctrl+Shift+S"@
}

/// After the configured binding failed to register, whether to try the
/// default one: only when the configured binding is something else.
pub fn should_fall_back(binding: &str) -> (retry: bool)
    ensures
        retry == (binding@ != default_binding()),
{
    !crate::strings::str_eq(binding, "Ctrl+Shift+S")
}

} // verus!
