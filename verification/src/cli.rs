//! The command-line demo's reaction to how often the verbosity flag was given.

use vstd::prelude::*;

verus! {

/// The message printed for `occurrences` uses of the verbosity flag.
pub fn verbosity_message(occurrences: u64) -> (msg: &'static str)
    ensures
        occurrences == 0 ==> msg == "No verbose info",
        occurrences == 1 ==> msg == "Some verbose info",
        occurrences == 2 ==> msg == "Tons of verbose info",
        occurrences > 2 ==> msg == "Don't be crazy",
{
    match occurrences {
        0 => "No verbose info",
        1 => "Some verbose info",
        2 => "Tons of verbose info",
        _ => "Don't be crazy",
    }
}

} // verus!
