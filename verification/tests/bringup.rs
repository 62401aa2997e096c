use mtk_flash::bringup::{
    download_mode_steps, power_steps, reset_steps, ControlLine, LineStep, LINE_HOLD_MILLIS,
    POWER_HOLD_MILLIS,
};

#[test]
fn download_mode_pulses_download_then_reset_and_releases_in_order() {
    let steps = download_mode_steps();
    assert_eq!(
        steps,
        vec![
            LineStep { line: ControlLine::Download, value: 1, hold_millis: 100 },
            LineStep { line: ControlLine::Reset, value: 1, hold_millis: 100 },
            LineStep { line: ControlLine::Reset, value: 0, hold_millis: 100 },
            LineStep { line: ControlLine::Download, value: 0, hold_millis: 0 },
        ]
    );
    // No other line is touched.
    assert!(steps.iter().all(|s| s.line != ControlLine::Power));
}

#[test]
fn reset_is_a_plain_pulse() {
    assert_eq!(
        reset_steps(),
        vec![
            LineStep { line: ControlLine::Reset, value: 1, hold_millis: LINE_HOLD_MILLIS },
            LineStep { line: ControlLine::Reset, value: 0, hold_millis: 0 },
        ]
    );
}

#[test]
fn power_is_a_long_press() {
    assert_eq!(POWER_HOLD_MILLIS, 1000);
    assert_eq!(
        power_steps(),
        vec![
            LineStep { line: ControlLine::Power, value: 1, hold_millis: POWER_HOLD_MILLIS },
            LineStep { line: ControlLine::Power, value: 0, hold_millis: 0 },
        ]
    );
}
