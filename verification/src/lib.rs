//! Keyboard-driven taskbar navigation, taskbar uncombining and virtual
//! desktop indicator logic for the Windows 11 shell.

pub mod text;
pub mod utils;
pub mod logging;
pub mod sort;
pub mod taskbar;
pub mod hotkey;
pub mod uncombine;
pub mod updater;
pub mod virtual_desktop;
pub mod winevent;
pub mod event;
pub mod bootstrap;
pub mod admin;
pub mod fatal_error;
