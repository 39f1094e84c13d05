use hydroshot::hotkey::should_fall_back;
use hydroshot::overlay::countdown_origin;
use hydroshot::tray::{about_text, tray_command, tray_items, tray_label, TrayCommand, TrayItem};

#[test]
fn menu_order_and_labels() {
    let items = tray_items();
    assert_eq!(items.len(), 10);
    assert_eq!(items[0], TrayItem::Capture);
    assert_eq!(items[9], TrayItem::Quit);
    let labels: Vec<&str> = items.iter().map(|&i| tray_label(i)).collect();
    assert_eq!(
        labels,
        vec!["Capture", "Capture Window", "Capture in 3s", "Capture in 5s", "Capture in 10s",
            "History", "Start on login", "Settings", "About", "Quit"]
    );
}

#[test]
fn delayed_captures_count_down() {
    assert_eq!(tray_command(TrayItem::CaptureIn3), TrayCommand::Countdown(3));
    assert_eq!(tray_command(TrayItem::CaptureIn5), TrayCommand::Countdown(5));
    assert_eq!(tray_command(TrayItem::CaptureIn10), TrayCommand::Countdown(10));
    assert_eq!(tray_command(TrayItem::CaptureWindow), TrayCommand::CaptureWindow);
    assert_eq!(tray_command(TrayItem::StartOnLogin), TrayCommand::ToggleAutostart);
    assert_eq!(tray_command(TrayItem::Quit), TrayCommand::Quit);
}

#[test]
fn about_text_names_the_version() {
    assert_eq!(
        about_text("1.2.3"),
        "HydroShot v1.2.3\nScreenshot capture & annotation tool\ngithub.com/Real-Fruit-Snacks/HydroShot"
    );
}

#[test]
fn countdown_window_is_centered() {
    assert_eq!(countdown_origin(Some((0, 0, 1920, 1080))), (900, 480));
    assert_eq!(countdown_origin(Some((1920, -100, 1280, 1024))), (2500, 352));
    // a monitor smaller than the window: signed halving rounds toward zero
    assert_eq!(countdown_origin(Some((0, 0, 99, 100))), (-10, -10));
    assert_eq!(countdown_origin(None), (800, 400));
}

#[test]
fn hotkey_falls_back_only_from_a_custom_binding() {
    assert!(should_fall_back("Ctrl+Alt+P"));
    assert!(!should_fall_back("Ctrl+Shift+S"));
}
