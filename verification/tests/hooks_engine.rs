use fresher::engine::{evaluate_loop_check, evaluate_post_iteration, LoopCheck};
use fresher::hooks::{
    classify_exit_code, finished_hook_decision, hook_env, interpret_hook_run,
    next_iteration_hook_decision, started_hook_decision, HookOutcome, HookResult, HOOK_ABORT,
    HOOK_CONTINUE, HOOK_SKIP,
};
use fresher::state::{FinishType, State};

#[test]
fn test_hook_constants() {
    assert_eq!(HOOK_CONTINUE, 0);
    assert_eq!(HOOK_SKIP, 1);
    assert_eq!(HOOK_ABORT, 2);
}

#[test]
fn test_exit_code_mapping() {
    assert!(matches!(classify_exit_code(0), HookResult::Continue));
    assert!(matches!(classify_exit_code(1), HookResult::Skip));
    assert!(matches!(classify_exit_code(2), HookResult::Abort));
    match classify_exit_code(99) {
        HookResult::Error(m) => assert!(m.contains("99")),
        _ => panic!("expected an error signal"),
    }
    match classify_exit_code(-1) {
        HookResult::Error(m) => assert_eq!(m, "Hook exited with code -1"),
        _ => panic!("expected an error signal"),
    }
}

#[test]
fn test_timeout_is_its_own_signal() {
    let r = interpret_hook_run(true, true, Some(HookOutcome::TimedOut));
    assert!(matches!(r, HookResult::Timeout));
}

#[test]
fn test_hook_run_not_found_paths() {
    assert!(matches!(interpret_hook_run(false, true, None), HookResult::NotFound));
    assert!(matches!(interpret_hook_run(true, false, None), HookResult::NotFound));
    assert!(matches!(interpret_hook_run(true, true, None), HookResult::NotFound));
}

#[test]
fn test_hook_run_spawn_failure() {
    let r = interpret_hook_run(true, true, Some(HookOutcome::SpawnFailed("no exec".to_string())));
    match r {
        HookResult::Error(m) => assert_eq!(m, "Failed to run hook: no exec"),
        _ => panic!("expected an error signal"),
    }
}

#[test]
fn test_started_hook_decisions() {
    assert_eq!(started_hook_decision(&HookResult::Continue), (true, false));
    assert_eq!(started_hook_decision(&HookResult::NotFound), (true, false));
    assert_eq!(started_hook_decision(&HookResult::Abort), (false, false));
    assert_eq!(started_hook_decision(&HookResult::Timeout), (true, true));
    assert_eq!(started_hook_decision(&HookResult::Error("x".to_string())), (true, true));
}

#[test]
fn test_next_iteration_hook_decisions() {
    assert_eq!(next_iteration_hook_decision(&HookResult::Continue), (true, false, false));
    assert_eq!(next_iteration_hook_decision(&HookResult::NotFound), (true, false, false));
    assert_eq!(next_iteration_hook_decision(&HookResult::Skip), (true, true, false));
    assert_eq!(next_iteration_hook_decision(&HookResult::Abort), (false, false, false));
    assert_eq!(next_iteration_hook_decision(&HookResult::Timeout), (true, false, true));
    assert_eq!(
        next_iteration_hook_decision(&HookResult::Error("x".to_string())),
        (true, false, true)
    );
}

#[test]
fn test_finished_hook_never_alters_flow() {
    assert!(!finished_hook_decision(&HookResult::Continue));
    assert!(!finished_hook_decision(&HookResult::Skip));
    assert!(!finished_hook_decision(&HookResult::Abort));
    assert!(!finished_hook_decision(&HookResult::NotFound));
    assert!(finished_hook_decision(&HookResult::Timeout));
    assert!(finished_hook_decision(&HookResult::Error("x".to_string())));
}

#[test]
fn test_hook_env_adds_identity() {
    let mut st = State::new(0);
    st.start_iteration(1, None);
    let vars = hook_env(&st, "/work/project", "building");
    let n = vars.len();
    assert_eq!(vars[n - 2], ("FRESHER_PROJECT_DIR".to_string(), "/work/project".to_string()));
    assert_eq!(vars[n - 1], ("FRESHER_MODE".to_string(), "building".to_string()));
    assert_eq!(vars[0], ("FRESHER_ITERATION".to_string(), "1".to_string()));
}

#[test]
fn test_loop_check_order() {
    // an interrupt outranks everything
    assert_eq!(
        evaluate_loop_check(true, 1, 5, true),
        LoopCheck::Finish(FinishType::Manual)
    );
    // then the iteration ceiling
    assert_eq!(
        evaluate_loop_check(false, 5, 5, true),
        LoopCheck::Finish(FinishType::MaxIterations)
    );
    // zero means no ceiling
    assert_eq!(evaluate_loop_check(false, 0, 1000, true), LoopCheck::Proceed);
    // then completion
    assert_eq!(
        evaluate_loop_check(false, 0, 3, false),
        LoopCheck::Finish(FinishType::Complete)
    );
    // otherwise the loop runs
    assert_eq!(evaluate_loop_check(false, 10, 3, true), LoopCheck::Proceed);
}

#[test]
fn test_post_iteration_decision() {
    assert_eq!(evaluate_post_iteration(2, true, true, 0), Some(FinishType::Error));
    assert_eq!(evaluate_post_iteration(0, true, true, 0), Some(FinishType::NoChanges));
    assert_eq!(evaluate_post_iteration(0, true, true, 1), None);
    assert_eq!(evaluate_post_iteration(0, true, false, 0), None);
    assert_eq!(evaluate_post_iteration(0, false, true, 0), None);
}
