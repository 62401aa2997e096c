use mtk_flash::progress::{
    animation_keeps_running, CommitEstimator, COMMIT_TICK_MILLIS, DEFAULT_COMMIT_ESTIMATE_MILLIS,
};

#[test]
fn scenario_c_second_commit_targets_the_first_measurement() {
    let mut est = CommitEstimator::new();
    // Part 1: nothing measured yet, the fixed default applies.
    assert_eq!(est.estimate_millis(), DEFAULT_COMMIT_ESTIMATE_MILLIS);
    assert_eq!(est.estimate_millis(), 12_000);
    // Part 1's commit took 8 s: part 2 targets 8 s, not the default.
    est.record_millis(8_000);
    assert_eq!(est.estimate_millis(), 8_000);
    // Part 2's commit took 11 s: a third part would target 11 s.
    est.record_millis(11_000);
    assert_eq!(est.estimate_millis(), 11_000);
}

#[test]
fn animation_runs_only_below_the_estimate() {
    assert!(animation_keeps_running(0, 8_000));
    assert!(animation_keeps_running(7_999, 8_000));
    assert!(!animation_keeps_running(8_000, 8_000));
    assert!(!animation_keeps_running(9_000, 8_000));
}

#[test]
fn the_animation_tick_is_a_tenth_of_a_second() {
    assert_eq!(COMMIT_TICK_MILLIS, 100);
}
