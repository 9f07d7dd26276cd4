//! Waiting for a gateway to wind down.

use vstd::prelude::*;

verus! {

/// Seconds between two looks at whether the gateway is gone.
pub const SLEEP_SECS: u64 = 1;

/// Seconds after which a warning is due.
pub const WARN_TIMEOUT_SECS: u64 = 60;

/// Seconds after which the wait is given up.
pub const MAX_TIMEOUT_SECS: u64 = 300;

/// What to do next while waiting.
#[derive(Debug, PartialEq, Clone, Copy, Eq, Structural)]
pub enum WaitStep {
    /// The gateway is gone: stop waiting.
    Done,
    /// The time is up: stop waiting, and say that the exit is unclean.
    TimedOut,
    /// Sleep and look again; before that, warn where `warn` is set.
    Sleep { warn: bool },
}

/// What to do next, `elapsed` seconds into the wait.
pub open spec fn next_step(elapsed: u64, gone: bool, warned: bool) -> WaitStep {
    if elapsed >= MAX_TIMEOUT_SECS {
        WaitStep::TimedOut
    } else if gone {
        WaitStep::Done
    } else {
        WaitStep::Sleep { warn: !warned && elapsed > WARN_TIMEOUT_SECS }
    }
}

/// What to do next, `elapsed` seconds into the wait, given whether the
/// gateway is gone and whether the warning was given.
pub fn wait_step(elapsed: u64, gone: bool, warned: bool) -> (r: WaitStep)
    ensures
        r == next_step(elapsed, gone, warned),
{
    if elapsed >= MAX_TIMEOUT_SECS {
        WaitStep::TimedOut
    } else if gone {
        WaitStep::Done
    } else {
        WaitStep::Sleep { warn: !warned && elapsed > WARN_TIMEOUT_SECS }
    }
}

} // verus!
