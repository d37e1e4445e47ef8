use arklog::ActionStatus;

#[test]
fn successful_background_poll_does_not_erase_the_last_action_error() {
    let mut status = ActionStatus::new(Some("Connect server failed".to_string()));

    status.record_background(Ok(()));
    assert_eq!(status.message_or("No devices"), "Connect server failed");

    status.record_action(Ok(()));
    assert_eq!(status.message_or("Ready"), "Ready");
}

#[test]
fn failed_background_work_and_actions_are_reported() {
    let mut status = ActionStatus::new(None);
    assert_eq!(status.error(), None);
    status.record_background(Err("Log channel disconnected".to_string()));
    assert_eq!(status.error(), Some("Log channel disconnected"));
    status.record_action(Err("Stop HiLog before changing devices".to_string()));
    assert_eq!(status.message_or("Ready"), "Stop HiLog before changing devices");
}
