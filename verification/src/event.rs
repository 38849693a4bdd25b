//! Application-defined window messages.

use vstd::prelude::*;

verus! {

/// Asks the main thread to reload the configuration (`WM_USER + 0x102`).
pub const WM_APP_RELOAD_CONFIG: u32 = 0x0400 + 0x102;
/// Asks the main thread to restart elevated (`WM_USER + 0x103`).
pub const WM_APP_RESTART_AS_ADMIN: u32 = 0x0400 + 0x103;

} // verus!
