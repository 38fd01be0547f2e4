//! Holding back an action that is asked for too often.

use vstd::prelude::*;

verus! {

/// How long an action rests after it has run, in milliseconds.
pub const DEBOUNCE_MILLIS: u128 = 120;

/// Whether an action that last ran `elapsed_millis` milliseconds ago may run
/// again: only once it has rested for longer than `DEBOUNCE_MILLIS`.
pub fn debounce(elapsed_millis: u128) -> (run: bool)
    ensures
        run == (elapsed_millis > DEBOUNCE_MILLIS),
{
    elapsed_millis > DEBOUNCE_MILLIS
}

} // verus!
