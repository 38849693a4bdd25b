//! State of the debug console window.
//!
//! The console is a child process of the application; this module decides
//! when it is started and stopped, and the caller runs the process.

use vstd::prelude::*;

verus! {

/// Visibility of the debug console and whether logs already go to a
/// terminal (command-line debug mode), in which case the console is never
/// shown.
pub struct ConsoleState {
    pub visible: bool,
    pub debug_cli_mode: bool,
}

/// What the caller must do to the console process after a toggle.
#[derive(Clone, Copy, Debug, PartialEq, Eq, Structural)]
pub enum ConsoleAction {
    /// Nothing changes.
    Nothing,
    /// Start the console worker process.
    Spawn,
    /// Stop the console worker process.
    Kill,
}

impl ConsoleState {
    /// A hidden console outside command-line debug mode.
    pub fn new() -> (r: ConsoleState)
        ensures
            !r.visible,
            !r.debug_cli_mode,
    {
        ConsoleState { visible: false, debug_cli_mode: false }
    }

    /// Records that logs go to the attached terminal from now on.
    pub fn enter_debug_cli_mode(&mut self)
        ensures
            final(self).debug_cli_mode,
            final(self).visible == old(self).visible,
    {
        self.debug_cli_mode = true;
    }

    /// Records that starting the console process failed: it is hidden.
    pub fn spawn_failed(&mut self)
        ensures
            !final(self).visible,
            final(self).debug_cli_mode == old(self).debug_cli_mode,
    {
        self.visible = false;
    }
}

/// The console state and action after a toggle of `s`.
pub open spec fn toggled(s: ConsoleState) -> (ConsoleState, ConsoleAction) {
    if s.debug_cli_mode {
        (s, ConsoleAction::Nothing)
    } else if s.visible {
        (ConsoleState { visible: false, ..s }, ConsoleAction::Kill)
    } else {
        (ConsoleState { visible: true, ..s }, ConsoleAction::Spawn)
    }
}

/// Shows the debug console if hidden, hides it if shown; does nothing in
/// command-line debug mode.
pub fn toggle(state: &mut ConsoleState) -> (action: ConsoleAction)
    ensures
        (*final(state), action) == toggled(*old(state)),
{
    if state.debug_cli_mode {
        return ConsoleAction::Nothing;
    }
    let new_visible = !state.visible;
    state.visible = new_visible;
    if new_visible {
        ConsoleAction::Spawn
    } else {
        ConsoleAction::Kill
    }
}

/// Outside command-line debug mode, two toggles leave the console as it was,
/// one of them starting the console process and the other stopping it; in
/// command-line debug mode a toggle changes nothing.
pub proof fn toggle_twice_restores(s: ConsoleState)
    ensures
        toggled(toggled(s).0).0 == s,
        !s.debug_cli_mode ==> toggled(s).1 != toggled(toggled(s).0).1
            && toggled(s).1 != ConsoleAction::Nothing,
        s.debug_cli_mode ==> toggled(s) == (s, ConsoleAction::Nothing),
{
}

} // verus!
