//! Which shown windows to uncombine.
//!
//! A WinEvent hook reports every window that is shown; the hook callback
//! asks the main thread, by a posted message, to uncombine new top-level
//! windows.

use vstd::prelude::*;

verus! {

/// `EVENT_OBJECT_SHOW`: an object was shown.
pub const EVENT_OBJECT_SHOW: u32 = 0x8002;
/// Message posted to the main thread to uncombine the window in `wparam`
/// (`WM_USER + 0x100`).
pub const WM_APP_UNCOMBINE: u32 = 0x0400 + 0x100;

/// Whether a WinEvent asks for the uncombining of window `hwnd`: it
/// reports the showing of the window itself (not of a part of it), the
/// window is visible and not yet uncombined, and the main thread is known.
pub open spec fn requests_uncombine(
    event: u32,
    hwnd: isize,
    id_object: i32,
    id_child: i32,
    visible: bool,
    already_uncombined: bool,
    main_thread_id: u32,
) -> bool {
    &&& id_object == 0 && id_child == 0
    &&& event == EVENT_OBJECT_SHOW
    &&& hwnd != 0
    &&& visible
    &&& !already_uncombined
    &&& main_thread_id != 0
}

/// Decides a WinEvent: true when the main thread is to be asked to
/// uncombine `hwnd`.
pub fn should_request_uncombine(
    event: u32,
    hwnd: isize,
    id_object: i32,
    id_child: i32,
    visible: bool,
    already_uncombined: bool,
    main_thread_id: u32,
) -> (r: bool)
    ensures
        r == requests_uncombine(event, hwnd, id_object, id_child, visible, already_uncombined, main_thread_id),
{
    if id_object != 0 || id_child != 0 {
        return false;
    }
    if event != EVENT_OBJECT_SHOW {
        return false;
    }
    if hwnd == 0 {
        return false;
    }
    if !visible {
        return false;
    }
    if already_uncombined {
        return false;
    }
    main_thread_id != 0
}

} // verus!
