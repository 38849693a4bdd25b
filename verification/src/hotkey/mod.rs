//! Global hotkeys with two delivery mechanisms.
//!
//! [`manager::HotkeyManager`] owns the hotkey set, decides for every hotkey
//! whether the system registers it or the low-level keyboard hook catches
//! it, and maps hotkey ids back to actions. Both mechanisms deliver the same
//! ids, so actions are dispatched the same way however a hotkey arrives.
//! [`low_level_hook::LowLevelKeyHook`] holds the hook's hotkey set and
//! decides which key presses it swallows.

pub mod low_level_hook;
pub mod manager;

pub use low_level_hook::{LowLevelHotkey, LowLevelKeyHook};
pub use manager::{HotkeyAction, HotkeyManager};
