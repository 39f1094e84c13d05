//! The tray menu: its entries in order, their labels, and what choosing one
//! does.

use vstd::prelude::*;

verus! {

/// The tray menu entries.
#[derive(Debug, Clone, Copy, PartialEq, Eq, Structural)]
pub enum TrayItem {
    Capture,
    CaptureWindow,
    CaptureIn3,
    CaptureIn5,
    CaptureIn10,
    History,
    StartOnLogin,
    Settings,
    About,
    Quit,
}

/// What choosing a tray entry does.
#[derive(Debug, Clone, Copy, PartialEq, Eq, Structural)]
pub enum TrayCommand {
    Capture,
    /// Enumerate the windows, then capture the one clicked.
    CaptureWindow,
    /// Start a countdown of this many seconds, then capture.
    Countdown(u32),
    OpenHistory,
    ToggleAutostart,
    OpenSettings,
    ShowAbout,
    Quit,
}

/// The menu entries, top to bottom.
pub open spec fn tray_menu() -> Seq<TrayItem> {
    seq![
        TrayItem::Capture, TrayItem::CaptureWindow, TrayItem::CaptureIn3, TrayItem::CaptureIn5,
        TrayItem::CaptureIn10, TrayItem::History, TrayItem::StartOnLogin, TrayItem::Settings,
        TrayItem::About, TrayItem::Quit,
    ]
}

/// The menu entries, top to bottom.
pub fn tray_items() -> (items: Vec<TrayItem>)
    ensures
        items@ == tray_menu(),
{
    let items = vec![
        TrayItem::Capture, TrayItem::CaptureWindow, TrayItem::CaptureIn3, TrayItem::CaptureIn5,
        TrayItem::CaptureIn10, TrayItem::History, TrayItem::StartOnLogin, TrayItem::Settings,
        TrayItem::About, TrayItem::Quit,
    ];
    assert(items@ =~= tray_menu());
    items
}

/// The label of a menu entry.
pub open spec fn tray_label_text(item: TrayItem) -> Seq<char> {
    match item {
        TrayItem::Capture => "Capture"@,
        TrayItem::CaptureWindow => "Capture Window"@,
        TrayItem::CaptureIn3 => "Capture in 3s"@,
        TrayItem::CaptureIn5 => "Capture in 5s"@,
        TrayItem::CaptureIn10 => "Capture in 10s"@,
        TrayItem::History => "History"@,
        TrayItem::StartOnLogin => "Start on login"@,
        TrayItem::Settings => "Settings"@,
        TrayItem::About => "About"@,
        TrayItem::Quit => "Quit"@,
    }
}

/// The label of a menu entry.
pub fn tray_label(item: TrayItem) -> (label: &'static str)
    ensures
        label@ == tray_label_text(item),
{
    match item {
        TrayItem::Capture => "Capture",
        TrayItem::CaptureWindow => "Capture Window",
        TrayItem::CaptureIn3 => "Capture in 3s",
        TrayItem::CaptureIn5 => "Capture in 5s",
        TrayItem::CaptureIn10 => "Capture in 10s",
        TrayItem::History => "History",
        TrayItem::StartOnLogin => "Start on login",
        TrayItem::Settings => "Settings",
        TrayItem::About => "About",
        TrayItem::Quit => "Quit",
    }
}

/// What choosing an entry does.
pub open spec fn tray_command_of(item: TrayItem) -> TrayCommand {
    match item {
        TrayItem::Capture => TrayCommand::Capture,
        TrayItem::CaptureWindow => TrayCommand::CaptureWindow,
        TrayItem::CaptureIn3 => TrayCommand::Countdown(3),
        TrayItem::CaptureIn5 => TrayCommand::Countdown(5),
        TrayItem::CaptureIn10 => TrayCommand::Countdown(10),
        TrayItem::History => TrayCommand::OpenHistory,
        TrayItem::StartOnLogin => TrayCommand::ToggleAutostart,
        TrayItem::Settings => TrayCommand::OpenSettings,
        TrayItem::About => TrayCommand::ShowAbout,
        TrayItem::Quit => TrayCommand::Quit,
    }
}

/// What choosing an entry does.
pub fn tray_command(item: TrayItem) -> (cmd: TrayCommand)
    ensures
        cmd == tray_command_of(item),
{
    match item {
        TrayItem::Capture => TrayCommand::Capture,
        TrayItem::CaptureWindow => TrayCommand::CaptureWindow,
        TrayItem::CaptureIn3 => TrayCommand::Countdown(3),
        TrayItem::CaptureIn5 => TrayCommand::Countdown(5),
        TrayItem::CaptureIn10 => TrayCommand::Countdown(10),
        TrayItem::History => TrayCommand::OpenHistory,
        TrayItem::StartOnLogin => TrayCommand::ToggleAutostart,
        TrayItem::Settings => TrayCommand::OpenSettings,
        TrayItem::About => TrayCommand::ShowAbout,
        TrayItem::Quit => TrayCommand::Quit,
    }
}

/// The About notification text for program version `version`.
pub open spec fn about_text_of(version: Seq<char>) -> Seq<char> {
    "HydroShot v"@ + version + "\nScreenshot capture & annotation tool\ngithub.com/Real-Fruit-Snacks/HydroShot"@
}

/// The About notification text for program version `version`.
pub fn about_text(version: &str) -> (text: String)
    ensures
        text@ == about_text_of(version@),
{
    let mut text = String::from_str("HydroShot v");
    text.append(version);
    text.append("\nScreenshot capture & annotation tool\ngithub.com/Real-Fruit-Snacks/HydroShot");
    text
}

} // verus!
