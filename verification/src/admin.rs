//! Restarting elevated.

use vstd::prelude::*;

verus! {

broadcast use vstd::string::group_string_axioms;

/// Why an elevated restart did not happen.
#[derive(Clone, Copy, Debug, PartialEq, Eq, Structural)]
pub enum AdminError {
    /// The shell refused to start the elevated process; the value is the
    /// code `ShellExecuteW` returned (at most 32).
    RestartFailed(isize),
}

/// The command line of the elevated process: `--reopen-ui` when the
/// settings window is to be shown again, nothing otherwise.
pub fn restart_parameters(reopen_ui: bool) -> (r: Option<String>)
    ensures
        reopen_ui ==> (r matches Some(p) && p@ == "--reopen-ui"@),
        !reopen_ui ==> r is None,
{
    if reopen_ui {
        Some(String::from_str("--reopen-ui"))
    } else {
        None
    }
}

/// The outcome of asking the shell to start the elevated process: it
/// started when `ShellExecuteW` returned more than 32 (and this process
/// then exits).
pub fn restart_outcome(code: isize) -> (r: Result<(), AdminError>)
    ensures
        code > 32 <==> r is Ok,
        r is Err ==> r == Err::<(), AdminError>(AdminError::RestartFailed(code)),
{
    if code > 32 {
        Ok(())
    } else {
        Err(AdminError::RestartFailed(code))
    }
}

} // verus!
