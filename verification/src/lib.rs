//! HydroShot core: the verified logic of a screenshot capture and
//! annotation tool.

pub mod undo;
pub mod edits;
pub mod strings;
pub mod tools;
pub mod config;
pub mod toolbar_config;
pub mod theme;
pub mod hotkey;
pub mod selection;
pub mod pixels;
pub mod capture;
pub mod window_detect;
pub mod overlay;
pub mod settings;
pub mod toolbar;
pub mod icons;
pub mod path_env;
pub mod cli;
pub mod platform;
pub mod upload;
pub mod export;
pub mod present;
pub mod tray;
pub mod history;
