//! Logger configuration decisions.

use vstd::prelude::*;
use crate::logging::formatter::LogLevel;
use crate::text::{chars_of, last_occurrence, occurs_at, rfind, string_from_chars};

verus! {

broadcast use vstd::string::group_string_axioms;

/// The most verbose level that is recorded: `Debug` in verbose mode,
/// `Warn` otherwise.
pub fn max_level(verbose: bool) -> (r: LogLevel)
    ensures
        r == (if verbose { LogLevel::Debug } else { LogLevel::Warn }),
{
    if verbose {
        LogLevel::Debug
    } else {
        LogLevel::Warn
    }
}

/// The last `::`-separated segment of a module path.
pub open spec fn last_path_segment(target: Seq<char>) -> Seq<char> {
    match last_occurrence(target, "::"@) {
        Some(i) => target.skip(i + 2),
        None => target,
    }
}

/// The tag shown before each log message: the last segment of the module
/// path the record comes from (`app::hotkey::manager` gives `manager`).
pub fn module_tag_prefix(target: &str) -> (r: String)
    ensures
        r@ == last_path_segment(target@),
{
    let cs = chars_of(target);
    let sep = chars_of("::");
    proof {
        reveal_strlit("::");
        assert(sep@.len() == 2);
    }
    match rfind(&cs, &sep) {
        Some(i) => {
            assert(occurs_at(cs@, sep@, i as int));
            assert(i + 2 <= cs.len());
            string_from_chars(&cs, i + 2, cs.len())
        },
        None => string_from_chars(&cs, 0, cs.len()),
    }
}

} // verus!
