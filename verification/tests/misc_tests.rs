use hydroshot::cli::{Cli, Commands, RunMode};
use hydroshot::icons::{get_svg, wrap_svg};
use hydroshot::platform::{desktop_entry, extract_text, pick_color};
use hydroshot::tools::next_step_number;
use hydroshot::window_detect::{enumerate_window_rects, window_at_point, window_rect_from_bounds};

#[test]
fn run_modes() {
    assert_eq!(Cli { command: None }.run_mode(), RunMode::Tray);
    let c = Cli { command: Some(Commands::Capture { clipboard: false, save: None, delay: 3 }) };
    assert_eq!(c.run_mode(), RunMode::InteractiveCapture);
    let c = Cli { command: Some(Commands::Capture { clipboard: true, save: None, delay: 0 }) };
    assert_eq!(c.run_mode(), RunMode::HeadlessCapture);
    let c = Cli { command: Some(Commands::Capture { clipboard: false, save: Some("a.png".to_string()), delay: 0 }) };
    assert_eq!(c.run_mode(), RunMode::HeadlessCapture);
}

#[test]
fn icons_are_complete_svg_documents() {
    let svg = get_svg("circle").expect("known icon");
    assert!(svg.starts_with("<svg xmlns=\"http://www.w3.org/2000/svg\""));
    assert!(svg.contains("<circle cx=\"12\" cy=\"12\" r=\"10\"/>"));
    assert!(svg.ends_with("</svg>"));
    assert!(svg.contains("stroke=\"currentColor\""));
    assert!(get_svg("spotlight").is_none());
    assert!(get_svg("nope").is_none());
    assert_eq!(wrap_svg("<g/>"), format!("{}<g/></svg>", &svg[..svg.find('>').unwrap() + 1]));
}

#[test]
fn every_toolbar_icon_but_two_has_svg() {
    for name in ["select", "arrow", "rectangle", "circle", "line", "pencil", "highlight", "text",
        "pixelate", "step-marker", "eyedropper", "pin", "copy", "upload", "save", "rounded-rect", "ocr"] {
        assert!(get_svg(name).is_some(), "{name}");
    }
}

#[test]
fn platform_services_unavailable_here() {
    assert_eq!(pick_color((1, 2, 3)), None);
    assert_eq!(extract_text(&[0, 0, 0, 0], 1, 1), Err("OCR is only available on Windows 10+".to_string()));
    assert!(enumerate_window_rects().is_empty());
}

#[test]
fn desktop_entry_text() {
    assert_eq!(
        desktop_entry("/usr/bin/hydroshot"),
        "[Desktop Entry]\nType=Application\nName=HydroShot\nExec=/usr/bin/hydroshot\nX-GNOME-Autostart-enabled=true\n"
    );
}

#[test]
fn front_most_window_wins() {
    let rects = [(0, 0, 100, 100), (50, 50, 100, 100), (-20, -20, 10, 10)];
    assert_eq!(window_at_point(&rects, 60, 60), Some((0, 0, 100, 100)));
    assert_eq!(window_at_point(&rects, 120, 120), Some((50, 50, 100, 100)));
    assert_eq!(window_at_point(&rects, -15, -15), Some((-20, -20, 10, 10)));
    assert_eq!(window_at_point(&rects, 100, 10), None);
    assert_eq!(window_at_point(&[], 0, 0), None);
}

#[test]
fn window_bounds_must_exceed_one_pixel() {
    assert_eq!(window_rect_from_bounds(10, 20, 110, 70), Some((10, 20, 100, 50)));
    assert_eq!(window_rect_from_bounds(10, 20, 11, 70), None);
    assert_eq!(window_rect_from_bounds(10, 20, 110, 21), None);
}

#[test]
fn step_numbers_continue_after_the_highest() {
    assert_eq!(next_step_number(&[]), 1);
    assert_eq!(next_step_number(&[1, 2, 3]), 4);
    assert_eq!(next_step_number(&[5, 2]), 6);
    assert_eq!(next_step_number(&[u32::MAX]), u32::MAX);
}
