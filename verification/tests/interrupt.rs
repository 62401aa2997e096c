use mtk_flash::interrupt::InterruptState;

#[test]
fn sets_interrupt_and_abort_flags() {
    let state = InterruptState::new();
    assert!(!state.interrupted);
    assert!(!state.confirmed_abort);
}

#[test]
fn first_request_arms_second_confirms_third_is_idempotent() {
    let mut state = InterruptState::new();

    state.request();
    assert!(state.interrupted);
    assert!(!state.confirmed_abort);

    state.request();
    assert!(state.interrupted);
    assert!(state.confirmed_abort);

    state.request();
    assert!(state.interrupted);
    assert!(state.confirmed_abort);
}

#[test]
fn snapshot_reads_the_current_flags() {
    let mut state = InterruptState::new();
    let s0 = state.snapshot();
    assert!(!s0.interrupted && !s0.confirmed_abort);

    state.request();
    let s1 = state.snapshot();
    assert!(s1.interrupted && !s1.confirmed_abort);
}

#[test]
fn default_matches_new() {
    let state = InterruptState::default();
    assert_eq!(state, InterruptState::new());
}
