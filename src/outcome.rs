//! Outcomes of child processes and their translation to exit statuses.
use vstd::prelude::*;

verus! {

/// The exit status used when no more precise status can be reported.
pub const GENERIC_FAILURE: u8 = 1;

/// How a finished child process ended.
#[derive(Clone, Copy, Debug, PartialEq, Eq, Structural)]
pub enum ChildOutcome {
    /// The child exited normally with this numeric code.
    Exited(i32),
    /// The child was terminated abnormally (by a signal) and has no code.
    Signaled,
}

/// Whether the outcome counts as a success: a normal exit with code 0.
pub open spec fn succeeded(o: ChildOutcome) -> bool {
    o == ChildOutcome::Exited(0)
}

/// The exit status that reports a failed child: its own code where that code
/// lies in the exit-status range 0..=255, and the generic failure otherwise.
pub open spec fn failure_status(o: ChildOutcome) -> int {
    match o {
        ChildOutcome::Exited(c) => if 0 <= c <= 255 {
            c as int
        } else {
            GENERIC_FAILURE as int
        },
        ChildOutcome::Signaled => GENERIC_FAILURE as int,
    }
}

impl ChildOutcome {
    /// Whether the child exited normally with code 0.
    pub fn is_success(&self) -> (r: bool)
        ensures
            r == succeeded(*self),
    {
        match self {
            ChildOutcome::Exited(c) => *c == 0,
            ChildOutcome::Signaled => false,
        }
    }
}

/// Translates the outcome of a failed child into this program's exit status.
/// A code in range is propagated unchanged; a code out of range and an
/// abnormal termination both become the generic failure.
pub fn failure_exit_code(o: ChildOutcome) -> (r: u8)
    ensures
        r as int == failure_status(o),
        !succeeded(o) ==> r != 0,
{
    match o {
        ChildOutcome::Exited(c) => {
            if 0 <= c && c <= 255 {
                c as u8
            } else {
                GENERIC_FAILURE
            }
        },
        ChildOutcome::Signaled => GENERIC_FAILURE,
    }
}

} // verus!
