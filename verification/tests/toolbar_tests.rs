use hydroshot::toolbar::{button_def, visible_button_action, ButtonAction};
use hydroshot::toolbar_config::ToolbarConfig;
use hydroshot::tools::ToolKind;

#[test]
fn default_toolbar_shows_every_button() {
    let cfg = ToolbarConfig::default();
    let v = cfg.visible_button_indices();
    assert_eq!(v, (0..24).collect::<Vec<usize>>());
}

#[test]
fn hidden_tools_are_skipped_but_fixed_buttons_stay() {
    let mut cfg = ToolbarConfig::default();
    cfg.toggle_by_index(1);
    cfg.toggle_by_index(13);
    let v = cfg.visible_button_indices();
    let mut expected: Vec<usize> = (0..13).filter(|&i| i != 1).collect();
    expected.extend(14..24);
    assert_eq!(v, expected);
}

#[test]
fn toggling_twice_restores_visibility() {
    let mut cfg = ToolbarConfig::default();
    cfg.toggle_by_index(5);
    assert!(!cfg.line);
    cfg.toggle_by_index(5);
    assert!(cfg.line);
    cfg.toggle_by_index(20); // not a tool: ignored
    assert_eq!(cfg.visible_button_indices().len(), 24);
}

#[test]
fn toolbar_entries_follow_flags() {
    let mut cfg = ToolbarConfig::default();
    cfg.toggle_by_index(9);
    let e = cfg.entries();
    assert_eq!(e.len(), 14);
    assert_eq!(e[9].1, "Text");
    assert!(!e[9].2);
    assert!(e[0].2);
}

#[test]
fn button_definitions() {
    let b = button_def(0);
    assert_eq!(b.action, ButtonAction::Tool(ToolKind::Select));
    assert_eq!(b.icon, Some("select"));
    assert_eq!(b.tooltip, "Select (V)");
    let b = button_def(8);
    assert_eq!(b.action, ButtonAction::Tool(ToolKind::Spotlight));
    let b = button_def(16);
    assert_eq!(b.action, ButtonAction::Color(2));
    assert_eq!(b.icon, None);
    assert_eq!(b.tooltip, "Green #a6e3a1 (right-click: pick)");
    assert_eq!(button_def(19).action, ButtonAction::Ocr);
    assert_eq!(button_def(20).action, ButtonAction::Upload);
    assert_eq!(button_def(21).action, ButtonAction::Pin);
    assert_eq!(button_def(22).action, ButtonAction::Copy);
    let b = button_def(23);
    assert_eq!(b.action, ButtonAction::Save);
    assert_eq!(b.tooltip, "Save (Ctrl+S)");
}

#[test]
fn clicked_visible_button_maps_to_its_action() {
    let mut cfg = ToolbarConfig::default();
    cfg.toggle_by_index(0);
    let v = cfg.visible_button_indices();
    assert_eq!(visible_button_action(&v, 0), Some(ButtonAction::Tool(ToolKind::Arrow)));
    assert_eq!(visible_button_action(&v, 13), Some(ButtonAction::Color(0)));
    assert_eq!(visible_button_action(&vec![30], 0), None);
}
