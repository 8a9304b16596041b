use zed_java::jdwp::{
    debug_port_from_setting, debug_requested, jdwp_poll_interval_ms, jdwp_poll_step,
    run_exit_code, PollStep,
};

#[test]
fn debug_settings() {
    assert_eq!(debug_port_from_setting("5006"), 5006);
    assert_eq!(debug_port_from_setting(""), 5005);
    assert_eq!(debug_port_from_setting("port"), 5005);
    assert_eq!(debug_port_from_setting("70000"), 5005);
    assert_eq!(debug_port_from_setting(&6123u16.to_string()), 6123);
    assert!(debug_requested(Some("1")));
    assert!(!debug_requested(Some("0")));
    assert!(!debug_requested(None));
}

#[test]
fn poll_decisions() {
    assert_eq!(jdwp_poll_step(true, 0), PollStep::Ready);
    assert_eq!(jdwp_poll_step(true, 500_000), PollStep::Ready);
    assert_eq!(jdwp_poll_step(false, 179_999), PollStep::Wait);
    assert_eq!(jdwp_poll_step(false, 180_000), PollStep::TimedOut);
    assert_eq!(jdwp_poll_interval_ms(), 200);
    assert_eq!(run_exit_code(Some(3)), 3);
    assert_eq!(run_exit_code(None), 0);
}
