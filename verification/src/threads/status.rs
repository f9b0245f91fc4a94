//! Unified thread status names.

use vstd::prelude::*;
use vstd::string::StrSliceExecFns;

verus! {

/// The unified status name for a one-letter scheduler state.
pub open spec fn status_name_of(c: char) -> Seq<char> {
    if c == 'R' {
        "Running"@
    } else if c == 'S' {
        "Sleeping"@
    } else if c == 'D' {
        "Blocked"@
    } else if c == 'Z' {
        "Zombie"@
    } else if c == 'T' || c == 't' {
        "Stopped"@
    } else if c == 'X' || c == 'x' {
        "Dead"@
    } else if c == 'K' {
        "Wakekill"@
    } else if c == 'W' {
        "Waking"@
    } else if c == 'P' {
        "Parked"@
    } else if c == 'I' {
        "Idle"@
    } else {
        "Unknown"@
    }
}

/// The unified status name for a native state code: a code of exactly one
/// letter is looked up, anything else is unknown.
pub open spec fn status_name(state: Seq<char>) -> Seq<char> {
    if state.len() == 1 {
        status_name_of(state[0])
    } else {
        "Unknown"@
    }
}

/// Maps a native thread state code to its unified status name, and hands the
/// code back beside it.
pub fn state_to_status(state: &str) -> (r: (String, String))
    ensures
        r.0@ == status_name(state@),
        r.1@ == state@,
{
    let code = state.to_owned();
    let mut name: &str = "Unknown";
    if state.unicode_len() == 1 {
        let c = state.get_char(0);
        if c == 'R' {
            name = "Running";
        } else if c == 'S' {
            name = "Sleeping";
        } else if c == 'D' {
            name = "Blocked";
        } else if c == 'Z' {
            name = "Zombie";
        } else if c == 'T' || c == 't' {
            name = "Stopped";
        } else if c == 'X' || c == 'x' {
            name = "Dead";
        } else if c == 'K' {
            name = "Wakekill";
        } else if c == 'W' {
            name = "Waking";
        } else if c == 'P' {
            name = "Parked";
        } else if c == 'I' {
            name = "Idle";
        }
    }
    (name.to_owned(), code)
}

} // verus!
