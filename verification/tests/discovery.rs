use mtk_flash::discovery::{
    fastboot_poll_decision, select_endpoint, serial_poll_decision, PollDecision, TargetMatch,
    FASTBOOT_POLL_INTERVAL_MILLIS, SERIAL_POLL_INTERVAL_MILLIS,
};

fn ids(parts: &[&str]) -> Vec<String> {
    parts.iter().map(|s| s.to_string()).collect()
}

#[test]
fn any_profile_binds_the_first_endpoint() {
    assert_eq!(select_endpoint(&TargetMatch::Any, &ids(&["a", "b"])), Some(0));
    assert_eq!(select_endpoint(&TargetMatch::Any, &ids(&[])), None);
}

#[test]
fn exact_profile_binds_the_first_equal_identifier() {
    let rule = TargetMatch::ExactIdentifier("serial-2".to_string());
    assert_eq!(select_endpoint(&rule, &ids(&["serial-1", "serial-2", "serial-2"])), Some(1));
    assert_eq!(select_endpoint(&rule, &ids(&["serial-1", "serial-3"])), None);
}

#[test]
fn serial_wait_retries_every_half_second_until_the_node_exists() {
    assert_eq!(
        serial_poll_decision(false),
        PollDecision::RetryAfterMillis { millis: SERIAL_POLL_INTERVAL_MILLIS }
    );
    assert_eq!(SERIAL_POLL_INTERVAL_MILLIS, 500);
    assert_eq!(serial_poll_decision(true), PollDecision::Bind);
}

#[test]
fn fastboot_wait_retries_every_tenth_of_a_second_until_an_endpoint_enumerates() {
    assert_eq!(
        fastboot_poll_decision(0),
        PollDecision::RetryAfterMillis { millis: FASTBOOT_POLL_INTERVAL_MILLIS }
    );
    assert_eq!(FASTBOOT_POLL_INTERVAL_MILLIS, 100);
    assert_eq!(fastboot_poll_decision(1), PollDecision::Bind);
    assert_eq!(fastboot_poll_decision(3), PollDecision::Bind);
}
