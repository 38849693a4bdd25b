//! The virtual desktop indicator drawn on the taskbar.

pub mod indicator;
