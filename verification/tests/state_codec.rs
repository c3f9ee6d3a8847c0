use fresher::state::{parse_state, render_state, FinishType, State};

fn assert_states_equal(a: &State, b: &State) {
    assert_eq!(a.iteration, b.iteration);
    assert_eq!(a.last_exit_code, b.last_exit_code);
    assert_eq!(a.last_commit_sha, b.last_commit_sha);
    assert_eq!(a.started_at, b.started_at);
    assert_eq!(a.total_commits, b.total_commits);
    assert_eq!(a.duration, b.duration);
    assert_eq!(a.finish_type.map(|f| f.to_string()), b.finish_type.map(|f| f.to_string()));
    assert_eq!(a.iteration_start, b.iteration_start);
    assert_eq!(a.iteration_sha, b.iteration_sha);
}

#[test]
fn test_state_new_is_fresh() {
    let st = State::new(1700000000);
    assert_eq!(st.iteration, 0);
    assert_eq!(st.last_exit_code, 0);
    assert!(st.last_commit_sha.is_none());
    assert_eq!(st.started_at, 1700000000);
    assert_eq!(st.total_commits, 0);
    assert_eq!(st.duration, 0);
    assert!(st.finish_type.is_none());
    assert!(st.iteration_start.is_none());
    assert!(st.iteration_sha.is_none());
}

#[test]
fn test_state_roundtrip_minimal() {
    let st = State::new(1700000000);
    let text = render_state(&st);
    let back = parse_state(text.as_str()).unwrap();
    assert_states_equal(&st, &back);
}

#[test]
fn test_state_roundtrip_full() {
    let st = State {
        iteration: 7,
        last_exit_code: -3,
        last_commit_sha: Some("deadbeef".to_string()),
        started_at: -62135596800,
        total_commits: 19,
        duration: 12345,
        finish_type: Some(FinishType::NoChanges),
        iteration_start: Some(1700000042),
        iteration_sha: Some("".to_string()),
    };
    let text = render_state(&st);
    let back = parse_state(text.as_str()).unwrap();
    assert_states_equal(&st, &back);
}

#[test]
fn test_state_roundtrip_each_finish_type() {
    for ft in [
        FinishType::Manual,
        FinishType::Error,
        FinishType::MaxIterations,
        FinishType::Complete,
        FinishType::NoChanges,
    ] {
        let mut st = State::new(5);
        st.set_finish(ft, 10);
        let back = parse_state(render_state(&st).as_str()).unwrap();
        assert_states_equal(&st, &back);
    }
}

#[test]
fn test_parse_state_rejects_noise() {
    assert!(parse_state("").is_none());
    assert!(parse_state("iteration=1\n").is_none());
    assert!(parse_state("iteration=x\nlast_exit_code=0\nstarted_at=0\ntotal_commits=0\nduration=0\n").is_none());
    let good = "iteration=1\nlast_exit_code=0\nstarted_at=0\ntotal_commits=0\nduration=0\n";
    assert!(parse_state(good).is_some());
    let trailing = "iteration=1\nlast_exit_code=0\nstarted_at=0\ntotal_commits=0\nduration=0\njunk\n";
    assert!(parse_state(trailing).is_none());
}

#[test]
fn test_parse_state_rejects_unknown_finish_type() {
    let text = "iteration=1\nlast_exit_code=0\nstarted_at=0\ntotal_commits=0\nduration=0\nfinish_type=later\n";
    assert!(parse_state(text).is_none());
}

#[test]
fn test_start_and_complete_iteration() {
    let mut st = State::new(100);
    st.start_iteration(110, Some("abc123".to_string()));
    assert_eq!(st.iteration, 1);
    assert_eq!(st.iteration_start, Some(110));
    assert_eq!(st.iteration_sha, Some("abc123".to_string()));

    st.complete_iteration(0, 2, Some("def456".to_string()), 160);
    assert_eq!(st.last_exit_code, 0);
    assert_eq!(st.total_commits, 2);
    assert_eq!(st.last_commit_sha, Some("def456".to_string()));
    assert_eq!(st.duration, 60);

    // with no commits the last revision stays
    st.complete_iteration(1, 0, Some("zzz".to_string()), 200);
    assert_eq!(st.last_commit_sha, Some("def456".to_string()));
    assert_eq!(st.last_exit_code, 1);
    assert_eq!(st.duration, 100);
}

#[test]
fn test_update_duration_never_negative() {
    let mut st = State::new(1000);
    st.update_duration(900);
    assert_eq!(st.duration, 0);
    st.update_duration(1500);
    assert_eq!(st.duration, 500);
}

#[test]
fn test_finish_type_names() {
    assert_eq!(FinishType::Manual.to_string(), "manual");
    assert_eq!(FinishType::Error.to_string(), "error");
    assert_eq!(FinishType::MaxIterations.to_string(), "max_iterations");
    assert_eq!(FinishType::Complete.to_string(), "complete");
    assert_eq!(FinishType::NoChanges.to_string(), "no_changes");
}

#[test]
fn test_to_env_vars() {
    let mut st = State::new(0);
    st.start_iteration(10, None);
    st.complete_iteration(0, 3, Some("abc".to_string()), 42);
    st.set_finish(FinishType::Complete, 42);
    let vars = st.to_env_vars();
    assert_eq!(vars.len(), 7);
    assert_eq!(vars[0], ("FRESHER_ITERATION".to_string(), "1".to_string()));
    assert_eq!(vars[1], ("FRESHER_LAST_EXIT_CODE".to_string(), "0".to_string()));
    assert_eq!(vars[2], ("FRESHER_TOTAL_COMMITS".to_string(), "3".to_string()));
    assert_eq!(vars[3], ("FRESHER_DURATION".to_string(), "42".to_string()));
    assert_eq!(vars[4], ("FRESHER_TOTAL_ITERATIONS".to_string(), "1".to_string()));
    assert_eq!(vars[5], ("FRESHER_LAST_COMMIT_SHA".to_string(), "abc".to_string()));
    assert_eq!(vars[6], ("FRESHER_FINISH_TYPE".to_string(), "complete".to_string()));
}

#[test]
fn test_env_vars_without_optionals() {
    let st = State::new(0);
    let vars = st.to_env_vars();
    assert_eq!(vars.len(), 5);
}
