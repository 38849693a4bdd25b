//! Log rendering and debug-console state.

pub mod console;
pub mod formatter;
pub mod logging;

pub use formatter::CleanFormatter;
