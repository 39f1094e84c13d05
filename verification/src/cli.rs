//! The command line: its arguments as plain values and the run mode they
//! select.

use vstd::prelude::*;

verus! {

/// Parsed command line: `hydroshot [capture [--clipboard] [--save PATH] [--delay SECS]]`.
pub struct Cli {
    pub command: Option<Commands>,
}

/// Subcommands.
pub enum Commands {
    /// Capture a screenshot.
    Capture {
        /// Copy the full screen to the clipboard (non-interactive).
        clipboard: bool,
        /// Save the full screen to this file (non-interactive).
        save: Option<String>,
        /// Seconds to wait before capturing.
        delay: u64,
    },
}

/// What the program does for a command line.
#[derive(Debug, Clone, Copy, PartialEq, Eq, Structural)]
pub enum RunMode {
    /// Run in the tray and wait for the hotkey.
    Tray,
    /// Open the interactive capture overlay right away.
    InteractiveCapture,
    /// Capture the full screen and deliver it without any window.
    HeadlessCapture,
}

/// The run mode a command line selects: no subcommand runs the tray app; a
/// capture with neither `--clipboard` nor `--save` is interactive.
pub open spec fn run_mode_of(cli: Cli) -> RunMode {
    match cli.command {
        None => RunMode::Tray,
        Some(Commands::Capture { clipboard, save, delay }) => if !clipboard && save is None {
            RunMode::InteractiveCapture
        } else {
            RunMode::HeadlessCapture
        },
    }
}

impl Cli {
    /// The run mode this command line selects.
    pub fn run_mode(&self) -> (mode: RunMode)
        ensures
            mode == run_mode_of(*self),
    {
        match &self.command {
            None => RunMode::Tray,
            Some(Commands::Capture { clipboard, save, delay: _ }) => {
                if !*clipboard && save.is_none() {
                    RunMode::InteractiveCapture
                } else {
                    RunMode::HeadlessCapture
                }
            },
        }
    }
}

} // verus!
