//! Texts of the fatal-error dialog.

use vstd::prelude::*;
use crate::text::{decimal, push_decimal};

verus! {

broadcast use vstd::string::group_string_axioms;

/// Where a crash happened: `file:line:column`.
pub fn crash_location(file: &str, line: u32, column: u32) -> (r: String)
    ensures
        r@ == file@ + seq![':'] + decimal(line as nat) + seq![':'] + decimal(column as nat),
{
    let mut r = String::from_str(file);
    r.append(":");
    push_decimal(&mut r, line as u64);
    r.append(":");
    push_decimal(&mut r, column as u64);
    proof {
        reveal_strlit(":");
    }
    assert(r@ =~= file@ + seq![':'] + decimal(line as nat) + seq![':'] + decimal(column as nat));
    r
}

/// The dialog text after a crash, with the panic message and location.
pub fn crash_message(message: &str, location: &str) -> (r: String)
    ensures
        r@ == "The application has encountered a critical error and must be closed (Crash)!\n\nError Details:\n"@
            + message@ + "\n\nLocation:\n"@ + location@,
{
    let mut r = String::from_str(
        "The application has encountered a critical error and must be closed (Crash)!\n\nError Details:\n",
    );
    r.append(message);
    r.append("\n\nLocation:\n");
    r.append(location);
    r
}

/// The dialog text when the application cannot start or stops on an
/// error.
pub fn startup_error_message(error: &str) -> (r: String)
    ensures
        r@ == "Cannot start or run the application!\n\nError:\n"@ + error@,
{
    let mut r = String::from_str("Cannot start or run the application!\n\nError:\n");
    r.append(error);
    r
}

} // verus!
