use std::time::Duration;

use arklog::controller::{
    device_refresh_interval, launch_start_step, pending_stream_action, stream_start_retry_delay,
};
use arklog::{
    ConnectionState, ControllerCore, DesiredStream, DeviceFaultLogFetchResult,
    DeviceFaultLogRawEntry, DeviceFaultLogStatus, DeviceLogDevice, FaultLogState, HealthStep,
    ReconcileStep, StartStep, StreamAction, StreamState,
};

fn device(id: &str, status: &str) -> DeviceLogDevice {
    DeviceLogDevice {
        id: id.to_string(),
        label: id.to_string(),
        status: status.to_string(),
        detail: String::new(),
    }
}

fn fetch(device_id: &str, status: DeviceFaultLogStatus, entries: usize) -> DeviceFaultLogFetchResult {
    DeviceFaultLogFetchResult {
        device_id: device_id.to_string(),
        entries: (0..entries)
            .map(|index| DeviceFaultLogRawEntry {
                id: format!("{device_id}-fault-{}", index + 1),
                raw: format!("raw {index}"),
            })
            .collect(),
        command: "hdc".to_string(),
        stderr: String::new(),
        status,
        message: "message".to_string(),
    }
}

#[test]
fn stream_start_retry_policy_caps_at_five_seconds() {
    let delays = (1..=7)
        .map(|failures| Duration::from_millis(stream_start_retry_delay(failures)))
        .collect::<Vec<_>>();

    assert_eq!(
        delays,
        [
            Duration::from_millis(500),
            Duration::from_secs(1),
            Duration::from_secs(2),
            Duration::from_secs(4),
            Duration::from_secs(5),
            Duration::from_secs(5),
            Duration::from_secs(5),
        ]
    );
}

#[test]
fn discovery_runs_while_waiting_but_not_during_a_healthy_stream() {
    assert_eq!(
        device_refresh_interval(&StreamState::Stopped).map(Duration::from_millis),
        Some(Duration::from_secs(1))
    );
    assert_eq!(device_refresh_interval(&StreamState::Streaming), None);
}

#[test]
fn stop_requested_during_starting_remains_queued() {
    assert_eq!(
        pending_stream_action(DesiredStream::Stopped, &StreamState::Starting),
        Some(StreamAction::Stop)
    );
}

#[test]
fn a_single_online_device_is_selected_and_several_ask_for_a_choice() {
    let single = ControllerCore::new(vec![device("A", "offline"), device("B", "online")]);
    assert_eq!(single.connection_state, ConnectionState::Ready);
    assert_eq!(single.selected_device, 1);

    let several = ControllerCore::new(vec![device("A", "online"), device("B", "online")]);
    assert_eq!(several.connection_state, ConnectionState::SelectionRequired);
    assert_eq!(several.selected_device, 2);

    let none = ControllerCore::new(vec![device("A", "offline")]);
    assert_eq!(none.connection_state, ConnectionState::NoDevices);
    assert_eq!(none.selected_device, 0);
}

#[test]
fn a_stream_starts_on_the_selected_online_device_and_stops_in_the_background() {
    let mut core = ControllerCore::new(vec![device("USB-01", "online")]);
    core.request_stream_running(1_000);
    assert_eq!(core.reconcile_step(1_000), ReconcileStep::Start);
    assert_eq!(core.begin_start(), StartStep::Launch("USB-01".to_string()));
    assert_eq!(core.stream_state, StreamState::Starting);
    core.start_succeeded("stream-1".to_string());
    assert!(core.is_streaming());
    assert!(core.stream_is_live());
    assert_eq!(core.reconcile_step(2_000), ReconcileStep::Wait);

    core.request_stream_stopped();
    assert_eq!(core.reconcile_step(3_000), ReconcileStep::Cleanup(true));
    assert_eq!(core.request_stream_cleanup(true), Some("stream-1".to_string()));
    assert_eq!(core.stream_state, StreamState::Stopping);
    assert!(core.stream_stop_running);
    assert_eq!(core.take_stopping_stream(), "stream-1");
    assert_eq!(core.apply_stop_result("stream-1", false, Ok(())), Ok(()));
    assert_eq!(core.stream_state, StreamState::Stopped);
    assert_eq!(core.active_stream, None);
}

#[test]
fn starting_without_an_online_device_is_refused_with_a_reason() {
    let mut core = ControllerCore::new(vec![device("USB-01", "offline")]);
    core.selected_device = 0;
    assert_eq!(
        core.begin_start(),
        StartStep::Refused("Device USB-01 is offline".to_string())
    );
    assert_eq!(
        core.stream_state,
        StreamState::Error { message: "Device USB-01 is offline".to_string(), active: false }
    );

    let mut empty = ControllerCore::new(Vec::new());
    assert_eq!(empty.begin_start(), StartStep::Refused("No devices".to_string()));
}

#[test]
fn failed_starts_back_off_and_a_new_device_starts_the_count_again() {
    let mut core = ControllerCore::new(vec![device("USB-01", "online")]);
    core.request_stream_running(0);
    core.start_failed("USB-01", "spawn failed".to_string(), 10_000);
    assert_eq!(core.consecutive_start_failures, 1);
    assert_eq!(core.start_retry_at, Some(10_500));
    assert_eq!(core.reconcile_step(10_100), ReconcileStep::Wait);
    assert_eq!(core.reconcile_step(10_500), ReconcileStep::Start);
    core.start_failed("USB-01", "spawn failed".to_string(), 20_000);
    assert_eq!(core.start_retry_at, Some(21_000));
    core.start_failed("USB-02", "spawn failed".to_string(), 30_000);
    assert_eq!(core.consecutive_start_failures, 1);
    assert_eq!(core.start_retry_at, Some(30_500));
}

#[test]
fn devices_cannot_change_while_streaming_and_wrap_around_otherwise() {
    let mut core = ControllerCore::new(vec![device("A", "online"), device("B", "online")]);
    assert_eq!(core.next_device(), Ok(()));
    assert_eq!(core.selected_device, 1);
    assert_eq!(core.connection_state, ConnectionState::Ready);
    assert_eq!(core.next_device(), Ok(()));
    assert_eq!(core.selected_device, 0);
    assert_eq!(core.previous_device(), Ok(()));
    assert_eq!(core.selected_device, 1);
    core.start_succeeded("stream".to_string());
    assert_eq!(
        core.next_device(),
        Err("Stop HiLog before changing devices".to_string())
    );
    assert_eq!(core.selected_device, 1);
}

#[test]
fn discovery_keeps_an_online_selection_and_stops_a_stream_whose_device_left() {
    let mut core = ControllerCore::new(vec![device("A", "online")]);
    core.start_succeeded("stream-a".to_string());
    assert!(!core.discovery_requires_stop(&[device("B", "online"), device("A", "online")]));
    assert_eq!(core.apply_discovered_devices(vec![device("B", "online"), device("A", "online")]), None);
    assert_eq!(core.selected_device, 1);
    assert_eq!(core.connection_state, ConnectionState::Ready);

    assert_eq!(
        core.apply_discovered_devices(vec![device("A", "offline"), device("C", "online")]),
        Some("stream-a".to_string())
    );
    assert_eq!(core.active_stream, None);
    assert_eq!(core.selected_device, 1);
    assert_eq!(core.connection_state, ConnectionState::Ready);
}

#[test]
fn failed_discovery_reports_the_error_and_plans_another() {
    let mut core = ControllerCore::new(Vec::new());
    core.request_stream_running(5_000);
    assert_eq!(core.next_device_refresh_at, Some(6_000));
    assert!(core.scheduled_refresh_due(6_000));
    assert!(core.begin_device_refresh());
    assert_eq!(core.connection_state, ConnectionState::Refreshing);
    assert!(!core.begin_device_refresh());
    assert_eq!(
        core.finish_device_refresh(Err("hdc missing".to_string()), 7_000),
        Err("hdc missing".to_string())
    );
    assert_eq!(core.connection_state, ConnectionState::Error("hdc missing".to_string()));
    assert_eq!(core.next_device_refresh_at, Some(8_000));
}

#[test]
fn fault_results_only_land_on_the_device_they_were_asked_for() {
    let mut core = ControllerCore::new(vec![device("A", "online"), device("B", "online")]);
    core.selected_device = 0;
    assert_eq!(core.begin_fault_refresh(), Ok(Some("A".to_string())));
    assert_eq!(core.fault_state, FaultLogState::Refreshing);
    assert_eq!(core.begin_fault_refresh(), Ok(None));
    core.selected_device = 1;
    let (changed, result) = core.finish_fault_refresh(Ok(fetch("A", DeviceFaultLogStatus::Ready, 2)));
    assert!(!changed);
    assert_eq!(result, Ok(()));
    assert!(core.fault_result.is_none());

    assert_eq!(core.begin_fault_refresh(), Ok(Some("B".to_string())));
    let (changed, _) = core.finish_fault_refresh(Ok(fetch("B", DeviceFaultLogStatus::Ready, 3)));
    assert!(changed);
    assert_eq!(core.fault_state, FaultLogState::Ready);
    assert_eq!(core.selected_fault_entry().map(|e| e.id.as_str()), Some("B-fault-1"));
    core.previous_fault();
    assert_eq!(core.selected_fault, 2);
    core.next_fault();
    assert_eq!(core.selected_fault, 0);

    core.apply_fault_result(fetch("B", DeviceFaultLogStatus::Unauthorized, 0));
    assert_eq!(core.fault_state, FaultLogState::Error("message".to_string()));
}

#[test]
fn a_stream_that_exits_is_reaped_and_reported() {
    let mut core = ControllerCore::new(vec![device("A", "online")]);
    core.start_succeeded("stream-a".to_string());
    assert_eq!(core.health_check_target(), Some("stream-a".to_string()));
    assert!(core.accepts_batch("stream-a"));
    assert!(!core.accepts_batch("stream-b"));
    assert_eq!(core.apply_finished_status(Ok(None), true), HealthStep::Unchanged);
    assert_eq!(core.apply_finished_status(Ok(Some(Some(3))), true), HealthStep::Reap);
    assert_eq!(
        core.stream_state,
        StreamState::Error {
            message: "HDC HiLog exited unexpectedly with code 3".to_string(),
            active: true,
        }
    );
    assert_eq!(core.pending_stream_action(), Some(StreamAction::Stop));
    assert_eq!(core.finish_reap(Ok(None), false), Ok(true));
    assert_eq!(
        core.stream_state,
        StreamState::Error {
            message: "HDC HiLog exited unexpectedly without an exit code".to_string(),
            active: false,
        }
    );
    assert_eq!(core.active_stream, None);
}

#[test]
fn initial_selection_prefers_the_first_online_device() {
    let core = ControllerCore::new(vec![device("USB-OFFLINE", "offline"), device("USB-01", "online")]);
    assert_eq!(core.selected_device().expect("online device").id, "USB-01");
}

#[test]
fn offline_only_snapshot_is_not_ready_to_stream() {
    let core = ControllerCore::new(vec![device("USB-OFFLINE", "offline")]);
    assert_eq!(core.connection_state, ConnectionState::NoDevices);
}

#[test]
fn initial_multiple_online_devices_require_an_explicit_selection() {
    let core = ControllerCore::new(vec![device("USB-A", "online"), device("USB-B", "online")]);
    assert_eq!(core.connection_state, ConnectionState::SelectionRequired);
    assert!(core.selected_device().is_none());
}

#[test]
fn refresh_falls_back_to_an_online_device_when_the_previous_device_disappears() {
    let mut core = ControllerCore::new(vec![device("USB-OLD", "online")]);
    assert!(core.begin_device_refresh());
    assert_eq!(core.finish_device_refresh(Ok(vec![device("USB-NEW", "online")]), 1_000), Ok(None));
    assert_eq!(core.selected_device().expect("device").id, "USB-NEW");
}

#[test]
fn refresh_keeps_the_current_target_when_it_is_still_online() {
    let mut core = ControllerCore::new(vec![device("USB-OLD", "online")]);
    assert!(core.begin_device_refresh());
    let refreshed = vec![device("USB-NEW", "online"), device("USB-OLD", "online")];
    assert_eq!(core.finish_device_refresh(Ok(refreshed), 1_000), Ok(None));
    assert_eq!(core.selected_device().expect("device").id, "USB-OLD");
}

#[test]
fn refresh_does_not_guess_when_multiple_online_devices_replace_the_target() {
    let mut core = ControllerCore::new(vec![device("USB-MISSING", "online")]);
    assert!(core.begin_device_refresh());
    let refreshed = vec![device("USB-NEW", "online"), device("USB-OLD", "online")];
    assert_eq!(core.finish_device_refresh(Ok(refreshed), 1_000), Ok(None));
    assert!(core.selected_device().is_none());
    assert_eq!(core.connection_state, ConnectionState::SelectionRequired);
}

#[test]
fn running_desire_survives_temporary_device_unavailability() {
    let mut core = ControllerCore::new(Vec::new());
    core.request_stream_running(0);
    assert_eq!(core.reconcile_step(0), ReconcileStep::Wait);
    assert_eq!(core.desired_stream, DesiredStream::Running);
    assert_eq!(core.stream_state, StreamState::Stopped);
}

#[test]
fn running_desire_survives_a_stream_start_failure() {
    let mut core = ControllerCore::new(vec![device("USB-01", "online")]);
    core.request_stream_running(0);
    assert_eq!(core.reconcile_step(0), ReconcileStep::Start);
    assert_eq!(core.begin_start(), StartStep::Launch("USB-01".to_string()));
    core.start_failed("USB-01", "program not found".to_string(), 0);
    assert_eq!(core.desired_stream, DesiredStream::Running);
    assert!(matches!(core.stream_state, StreamState::Error { active: false, .. }));
}

#[test]
fn consecutive_start_failures_are_not_retried_in_a_hot_loop() {
    let mut core = ControllerCore::new(vec![device("USB-01", "online")]);
    core.request_stream_running(0);
    assert_eq!(core.begin_start(), StartStep::Launch("USB-01".to_string()));
    core.start_failed("USB-01", "program not found".to_string(), 0);
    assert_eq!(core.reconcile_step(0), ReconcileStep::Wait);
}

#[test]
fn a_listed_online_duplicate_keeps_the_selection_on_the_first_device_with_that_id() {
    let mut core = ControllerCore::new(vec![device("X", "online")]);
    core.adopt_devices(vec![device("X", "offline"), device("X", "online")]);
    assert_eq!(core.selected_device, 0);
    assert_eq!(core.connection_state, ConnectionState::SelectionRequired);
}

#[test]
fn a_stop_already_running_is_not_started_twice_when_the_device_leaves() {
    let mut core = ControllerCore::new(vec![device("A", "online")]);
    core.start_succeeded("stream-a".to_string());
    assert_eq!(core.request_stream_cleanup(true), Some("stream-a".to_string()));
    assert_eq!(core.apply_discovered_devices(vec![device("B", "online")]), None);
    assert_eq!(core.active_stream, None);
    assert_eq!(core.selected_device, 0);
    assert_eq!(core.connection_state, ConnectionState::Ready);
}

#[test]
fn the_launch_start_waits_for_discovery_and_starts_only_a_ready_device() {
    assert_eq!(launch_start_step(true, &ConnectionState::Refreshing), (true, false));
    assert_eq!(launch_start_step(true, &ConnectionState::Ready), (false, true));
    assert_eq!(launch_start_step(true, &ConnectionState::NoDevices), (false, false));
    assert_eq!(launch_start_step(false, &ConnectionState::Ready), (false, false));
}
