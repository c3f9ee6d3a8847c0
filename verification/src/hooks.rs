//! The hook protocol: how a hook process's fate maps onto a control
//! signal, and how each call site interprets the signal.

use vstd::prelude::*;

use crate::state::{spec_finish_name, State};
use crate::text::{spec_dec_i64, string_from_chars};

verus! {

/// Exit code asking the loop to go on.
pub const HOOK_CONTINUE: i32 = 0;

/// Exit code asking the loop to skip one iteration.
pub const HOOK_SKIP: i32 = 1;

/// Exit code asking the loop to stop.
pub const HOOK_ABORT: i32 = 2;

/// The control signal a hook yields.
#[derive(Debug, Clone)]
pub enum HookResult {
    /// Continue execution.
    Continue,
    /// Skip this iteration (heeded only between iterations).
    Skip,
    /// Abort the loop.
    Abort,
    /// Hook not found or not executable.
    NotFound,
    /// Hook timed out.
    Timeout,
    /// Hook failed with an error.
    Error(String),
}

/// The model of a hook signal.
pub enum HookResultModel {
    Continue,
    Skip,
    Abort,
    NotFound,
    Timeout,
    Error(Seq<char>),
}

impl DeepView for HookResult {
    type V = HookResultModel;

    open spec fn deep_view(&self) -> HookResultModel {
        match self {
            HookResult::Continue => HookResultModel::Continue,
            HookResult::Skip => HookResultModel::Skip,
            HookResult::Abort => HookResultModel::Abort,
            HookResult::NotFound => HookResultModel::NotFound,
            HookResult::Timeout => HookResultModel::Timeout,
            HookResult::Error(ref m) => HookResultModel::Error(m@),
        }
    }
}

/// How a hook process ends, as the runner reports it.
#[derive(Debug, Clone)]
pub enum HookOutcome {
    /// The process exited with this code.
    Exited(i32),
    /// The wall-clock limit passed first.
    TimedOut,
    /// The process could not be run at all; the runner's words.
    SpawnFailed(String),
}

/// The error message for an unexpected exit code.
pub open spec fn spec_exit_code_message(code: int) -> Seq<char> {
    "Hook exited with code "@ + spec_dec_i64(code)
}

/// The signal an exit code means: zero continues, one skips, two aborts,
/// and anything else is an error naming the code.
pub open spec fn spec_classify_exit_code(code: int) -> HookResultModel {
    if code == 0 {
        HookResultModel::Continue
    } else if code == 1 {
        HookResultModel::Skip
    } else if code == 2 {
        HookResultModel::Abort
    } else {
        HookResultModel::Error(spec_exit_code_message(code))
    }
}

/// Maps a raw exit code onto its control signal.
pub fn classify_exit_code(code: i32) -> (r: HookResult)
    ensures
        r.deep_view() == spec_classify_exit_code(code as int),
{
    if code == HOOK_CONTINUE {
        HookResult::Continue
    } else if code == HOOK_SKIP {
        HookResult::Skip
    } else if code == HOOK_ABORT {
        HookResult::Abort
    } else {
        let mut msg = String::from_str("Hook exited with code ");
        let num = crate::text::i64_to_dec(code as i64);
        msg.append(num.as_str());
        HookResult::Error(msg)
    }
}

/// The signal a whole hook run means. A hook that is disabled or absent
/// was not found; a timeout is its own signal, apart from errors; a
/// spawn failure is an error carrying the runner's words; an exit code
/// is classified by `spec_classify_exit_code`.
pub open spec fn spec_hook_result(
    enabled: bool,
    found_executable: bool,
    outcome: Option<HookOutcome>,
) -> HookResultModel {
    if !enabled || !found_executable {
        HookResultModel::NotFound
    } else {
        match outcome {
            Some(HookOutcome::Exited(code)) => spec_classify_exit_code(code as int),
            Some(HookOutcome::TimedOut) => HookResultModel::Timeout,
            Some(HookOutcome::SpawnFailed(m)) => HookResultModel::Error("Failed to run hook: "@ + m@),
            None => HookResultModel::NotFound,
        }
    }
}

/// Interprets a hook run: the caller says whether hooks are enabled and
/// whether an executable hook file was found, and hands over the
/// process outcome if one was run.
pub fn interpret_hook_run(enabled: bool, found_executable: bool, outcome: Option<HookOutcome>) -> (r:
    HookResult)
    ensures
        r.deep_view() == spec_hook_result(enabled, found_executable, outcome),
{
    if !enabled || !found_executable {
        return HookResult::NotFound;
    }
    match outcome {
        Some(HookOutcome::Exited(code)) => classify_exit_code(code),
        Some(HookOutcome::TimedOut) => HookResult::Timeout,
        Some(HookOutcome::SpawnFailed(m)) => {
            let mut msg = String::from_str("Failed to run hook: ");
            msg.append(m.as_str());
            HookResult::Error(msg)
        },
        None => HookResult::NotFound,
    }
}

/// What the `started` hook's signal decides: whether to begin at all.
/// Only `Abort` stops the run; a timeout or an error merely warns.
pub fn started_hook_decision(r: &HookResult) -> (d: (bool, bool))
    ensures
        d.0 == !(r.deep_view() is Abort),
        d.1 == (r.deep_view() is Timeout || r.deep_view() is Error),
{
    match r {
        HookResult::Continue | HookResult::NotFound | HookResult::Skip => (true, false),
        HookResult::Abort => (false, false),
        HookResult::Timeout => (true, true),
        HookResult::Error(_) => (true, true),
    }
}

/// What the `next_iteration` hook's signal decides: whether the loop
/// goes on, and whether this one iteration is skipped. Only `Abort`
/// stops the loop; only `Skip` skips; a timeout or an error warns.
pub fn next_iteration_hook_decision(r: &HookResult) -> (d: (bool, bool, bool))
    ensures
        d.0 == !(r.deep_view() is Abort),
        d.1 == (r.deep_view() is Skip),
        d.2 == (r.deep_view() is Timeout || r.deep_view() is Error),
{
    match r {
        HookResult::Continue | HookResult::NotFound => (true, false, false),
        HookResult::Skip => (true, true, false),
        HookResult::Abort => (false, false, false),
        HookResult::Timeout => (true, false, true),
        HookResult::Error(_) => (true, false, true),
    }
}

/// What the `finished` hook's signal decides: nothing may change the
/// control flow; a timeout or an error only warns.
pub fn finished_hook_decision(r: &HookResult) -> (warn: bool)
    ensures
        warn == (r.deep_view() is Timeout || r.deep_view() is Error),
{
    match r {
        HookResult::Continue | HookResult::NotFound | HookResult::Skip | HookResult::Abort => false,
        HookResult::Timeout => true,
        HookResult::Error(_) => true,
    }
}

/// Every variable a hook receives: the state's own, then the project
/// directory and the mode.
pub open spec fn spec_hook_env_ok(
    r: Seq<(String, String)>,
    m: crate::state::StateModel,
    project_dir: Seq<char>,
    mode: Seq<char>,
) -> bool {
    &&& r.len() >= 2
    &&& crate::state::spec_env_vars_ok(r.subrange(0, r.len() - 2), m)
    &&& r[r.len() - 2].0@ == "FRESHER_PROJECT_DIR"@ && r[r.len() - 2].1@ == project_dir
    &&& r[r.len() - 1].0@ == "FRESHER_MODE"@ && r[r.len() - 1].1@ == mode
}

/// The environment for one hook invocation.
pub fn hook_env(state: &State, project_dir: &str, mode: &str) -> (r: Vec<(String, String)>)
    ensures
        spec_hook_env_ok(r@, state.deep_view(), project_dir@, mode@),
{
    let mut vars = state.to_env_vars();
    let ghost base = vars@;
    vars.push((String::from_str("FRESHER_PROJECT_DIR"), String::from_str(project_dir)));
    vars.push((String::from_str("FRESHER_MODE"), String::from_str(mode)));
    proof {
        assert(vars@.subrange(0, vars@.len() - 2) =~= base);
    }
    vars
}

} // verus!
