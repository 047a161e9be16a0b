//! The event loop's per-iteration decision.
//!
//! The caller drives discovery and registration by calling `poll(timeout)` in
//! a loop of its own; one poll advances the underlying poll context exactly
//! one iteration and returns — no internal sleeping or backoff, a zero
//! timeout polls without blocking.  Each iteration the shell performs the
//! bounded wait and hands its interpreted outcome back; the verified plan
//! below says what the iteration must then do.

use vstd::prelude::*;

use crate::error::Error;
use crate::poll::read_select_outcome;

verus! {

/// What one poll iteration does after the readiness wait.
#[derive(Debug, Copy, Clone, PartialEq, Eq, Structural)]
pub enum PollPlan {
    /// Data is pending: ask the native layer to process it, which dispatches
    /// callbacks synchronously on this thread.
    ProcessPending,
    /// The wait timed out: nothing to process, return control to the caller.
    Idle,
}

/// The plan for one poll iteration, from the raw return of the readiness
/// wait: an OS failure propagates as `OsError`, a positive ready count means
/// pending data must be processed, zero means an idle iteration.  An error
/// never counts as "no data".
pub fn poll_plan(wait_result: i32) -> (r: Result<PollPlan, Error>)
    ensures
        wait_result < 0 ==> r == Err::<PollPlan, Error>(Error::OsError { code: wait_result }),
        wait_result == 0 ==> r == Ok::<PollPlan, Error>(PollPlan::Idle),
        wait_result > 0 ==> r == Ok::<PollPlan, Error>(PollPlan::ProcessPending),
{
    match read_select_outcome(wait_result) {
        Err(e) => Err(e),
        Ok(count) => {
            if count > 0 {
                Ok(PollPlan::ProcessPending)
            } else {
                Ok(PollPlan::Idle)
            }
        },
    }
}

} // verus!
