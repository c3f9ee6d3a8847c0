//! The iteration engine's decisions: when the loop starts another
//! iteration, when it finishes, and why.

use vstd::prelude::*;

use crate::state::FinishType;

verus! {

/// What the loop does at an iteration boundary.
#[derive(Debug, Clone, Copy, PartialEq, Eq, Structural)]
pub enum LoopCheck {
    /// Run another iteration.
    Proceed,
    /// Finish the run for this reason.
    Finish(FinishType),
}

/// The boundary decision, in its fixed order: an interrupt finishes the
/// run by hand; a reached iteration ceiling (zero meaning no ceiling)
/// finishes it; no pending work completes it; otherwise the loop runs.
pub open spec fn spec_loop_check(
    interrupted: bool,
    max_iterations: u32,
    iteration: u32,
    has_pending: bool,
) -> LoopCheck {
    if interrupted {
        LoopCheck::Finish(FinishType::Manual)
    } else if max_iterations > 0 && iteration >= max_iterations {
        LoopCheck::Finish(FinishType::MaxIterations)
    } else if !has_pending {
        LoopCheck::Finish(FinishType::Complete)
    } else {
        LoopCheck::Proceed
    }
}

/// Decides whether another iteration runs, matching `spec_loop_check`.
pub fn evaluate_loop_check(
    interrupted: bool,
    max_iterations: u32,
    iteration: u32,
    has_pending: bool,
) -> (r: LoopCheck)
    ensures
        r == spec_loop_check(interrupted, max_iterations, iteration, has_pending),
{
    if interrupted {
        LoopCheck::Finish(FinishType::Manual)
    } else if max_iterations > 0 && iteration >= max_iterations {
        LoopCheck::Finish(FinishType::MaxIterations)
    } else if !has_pending {
        LoopCheck::Finish(FinishType::Complete)
    } else {
        LoopCheck::Proceed
    }
}

/// The decision after a worker iteration: a worker that failed finishes
/// the run with an error; under smart termination, an unchanged
/// revision with no commits finishes it as making no changes;
/// otherwise the loop goes on.
pub open spec fn spec_post_iteration(
    exit_code: i32,
    smart_termination: bool,
    sha_unchanged: bool,
    commits: u32,
) -> Option<FinishType> {
    if exit_code != 0 {
        Some(FinishType::Error)
    } else if smart_termination && sha_unchanged && commits == 0 {
        Some(FinishType::NoChanges)
    } else {
        None
    }
}

/// Decides what a finished worker iteration means, matching
/// `spec_post_iteration`.
pub fn evaluate_post_iteration(
    exit_code: i32,
    smart_termination: bool,
    sha_unchanged: bool,
    commits: u32,
) -> (r: Option<FinishType>)
    ensures
        r == spec_post_iteration(exit_code, smart_termination, sha_unchanged, commits),
{
    if exit_code != 0 {
        Some(FinishType::Error)
    } else if smart_termination && sha_unchanged && commits == 0 {
        Some(FinishType::NoChanges)
    } else {
        None
    }
}

} // verus!
