use hydroshot::hotkey::{binding_from_key, parse_binding, Code, KeyInput, Modifiers};

#[test]
fn parse_default_binding() {
    let (mods, code) = parse_binding("Ctrl+Shift+S").expect("default binding parses");
    assert!(mods.contains(Modifiers::control()));
    assert!(mods.contains(Modifiers::shift()));
    assert_eq!(code, Code::KeyS);
}

#[test]
fn parse_is_case_insensitive_and_trims() {
    let (mods, code) = parse_binding("ctrl + ALT + p").expect("messy binding parses");
    assert!(mods.contains(Modifiers::control()));
    assert!(mods.contains(Modifiers::alt()));
    assert_eq!(code, Code::KeyP);
}

#[test]
fn parse_digits() {
    let (mods, code) = parse_binding("Ctrl+Shift+1").expect("digit binding parses");
    assert!(mods.contains(Modifiers::control()));
    assert_eq!(code, Code::Digit1);

    let (_, code) = parse_binding("Alt+0").expect("digit 0 parses");
    assert_eq!(code, Code::Digit0);
}

#[test]
fn parse_function_keys_and_printscreen() {
    let (_, code) = parse_binding("Super+F5").expect("F-key parses");
    assert_eq!(code, Code::F5);
    let (_, code) = parse_binding("PrintScreen").expect("PrintScreen parses");
    assert_eq!(code, Code::PrintScreen);
}

#[test]
fn parse_rejects_garbage() {
    assert!(parse_binding("").is_err());
    assert!(parse_binding("Ctrl+Shift").is_err()); // modifiers only
    assert!(parse_binding("Ctrl+Banana").is_err());
    assert!(parse_binding("Ctrl+!").is_err());
}

#[test]
fn parse_accepts_modifier_aliases() {
    let (mods, code) = parse_binding("Control+Win+F12").expect("aliases parse");
    assert!(mods.contains(Modifiers::control()));
    assert!(mods.contains(Modifiers::super_mod()));
    assert!(!mods.contains(Modifiers::shift()));
    assert_eq!(code, Code::F12);
}

#[test]
fn modifiers_only_empty_is_empty() {
    assert!(Modifiers::empty().is_empty());
    assert!(!Modifiers::control().is_empty());
}

#[test]
fn recorded_binding_round_trips() {
    let mods = Modifiers { ctrl: true, shift: true, alt: false, super_key: false };
    let b = binding_from_key(mods, &KeyInput::Character("s".to_string())).expect("binding");
    assert_eq!(b, "Ctrl+Shift+S");
    let (m, code) = parse_binding(&b).expect("recorded binding parses");
    assert_eq!(m, mods);
    assert_eq!(code, Code::KeyS);

    let f = binding_from_key(Modifiers::alt(), &KeyInput::Function(7)).expect("function binding");
    assert_eq!(f, "Alt+F7");
    assert_eq!(parse_binding(&f).expect("parses").1, Code::F7);
}

#[test]
fn recording_needs_a_strong_modifier() {
    assert!(binding_from_key(Modifiers::empty(), &KeyInput::Character("a".to_string())).is_none());
    assert!(binding_from_key(Modifiers::shift(), &KeyInput::Character("a".to_string())).is_none());
    assert!(binding_from_key(Modifiers::control(), &KeyInput::Other).is_none());
}
