use std::sync::mpsc;

use arklog::background_job::{poll_outcome, ChannelPoll};
use std::time::Duration;

use arklog::devices::parse_phone_code;
use arklog::stream::{
    decode_log_line, plan_stream_start, validate_device_id, DeviceLogStartError, DeviceLogStartMode,
    LineBatcher, MAX_BATCH_LINES,
};
use arklog::{BackgroundJob, CommandOutput, CommandPolicy, CommandRunner, HdcClient};

#[test]
fn log_lines_lose_their_ending_and_invalid_bytes_become_replacement_characters() {
    assert_eq!(decode_log_line(b"I boot ok\r\n"), "I boot ok");
    assert_eq!(decode_log_line(b"E bad \xff byte\n"), "E bad \u{fffd} byte");
    assert_eq!(decode_log_line(b"no ending"), "no ending");
}

#[test]
fn phone_codes_are_read_only_from_valid_utf8() {
    assert_eq!(parse_phone_code(b"TAS-AL00\n"), Some("TAS-AL00".to_string()));
    assert_eq!(parse_phone_code(b"\xffTAS-AL00\n"), None);
}

#[test]
fn batches_are_full_or_flushed_and_keep_every_line_in_order() {
    let mut batcher = LineBatcher::new();
    let mut delivered = Vec::new();
    for index in 0..(MAX_BATCH_LINES + 3) {
        if let Some(batch) = batcher.push(format!("line {index}")) {
            assert_eq!(batch.len(), MAX_BATCH_LINES);
            delivered.extend(batch);
        }
    }
    assert_eq!(batcher.pending(), 3);
    delivered.extend(batcher.flush().expect("partial batch"));
    assert_eq!(batcher.flush(), None);
    let expected = (0..(MAX_BATCH_LINES + 3))
        .map(|index| format!("line {index}"))
        .collect::<Vec<_>>();
    assert_eq!(delivered, expected);
}

#[test]
fn background_jobs_report_their_result_once_and_a_lost_worker_as_an_error() {
    let mut job: BackgroundJob<u32> = BackgroundJob::new();
    assert_eq!(job.poll(), None);
    let (sender, receiver) = mpsc::channel();
    assert_eq!(job.attach(receiver), Ok(()));
    assert!(job.is_running());
    let (_spare_sender, spare) = mpsc::channel();
    assert_eq!(
        job.attach(spare),
        Err("Background job is already running".to_string())
    );
    assert_eq!(job.poll(), None);
    sender.send(Ok(7)).expect("send");
    assert_eq!(job.poll(), Some(Ok(7)));
    assert!(!job.is_running());

    let (sender, receiver) = mpsc::channel::<Result<u32, String>>();
    job.attach(receiver).expect("attach");
    drop(sender);
    assert_eq!(job.poll(), Some(Err("Background job disconnected".to_string())));
}

struct PolicyRunner;

impl CommandRunner for PolicyRunner {
    fn output(&self, _program: &str, _args: &[String]) -> Result<CommandOutput, String> {
        Err("no fixed output".to_string())
    }

    fn output_with_policy(
        &self,
        _program: &str,
        args: &[String],
        policy: CommandPolicy,
    ) -> Result<CommandOutput, String> {
        let expected = if args.first().map(String::as_str) == Some("list") {
            (Duration::from_secs(3), 256 * 1024)
        } else {
            (Duration::from_secs(5), 4 * 1024 * 1024)
        };
        if (policy.timeout(), policy.output_limit()) != expected {
            return Err(format!("unexpected policy for {}", args.join(" ")));
        }
        Ok(CommandOutput {
            success: true,
            stdout: Vec::new(),
            stderr: Vec::new(),
        })
    }
}

#[test]
fn default_clients_give_discovery_and_fault_queries_their_budgets() {
    let client = HdcClient::with_runner("hdc", PolicyRunner);
    assert!(client.list_devices().expect("devices").is_empty());
    let result = client.list_fault_logs("USB-01").expect("fault logs");
    assert_eq!(result.device_id, "USB-01");
}

#[test]
fn live_only_start_fails_explicitly_when_no_reliable_boundary_is_available() {
    let error = plan_stream_start("USB-01", DeviceLogStartMode::LiveOnly)
        .expect_err("strict live-only capture is not supported");
    assert!(matches!(error, DeviceLogStartError::UnsupportedLiveStart { .. }));
    assert_eq!(
        plan_stream_start(" USB-01 ", DeviceLogStartMode::IncludeBuffered),
        Ok("USB-01".to_string())
    );
}

#[test]
fn rejects_an_empty_device_id_before_launching_hdc() {
    let error = validate_device_id("  ").expect_err("blank device id");
    assert!(error.to_ascii_lowercase().contains("device"));
    assert_eq!(
        plan_stream_start("  ", DeviceLogStartMode::IncludeBuffered),
        Err(DeviceLogStartError::MissingDevice("A device id is required".to_string()))
    );
}

#[test]
fn channel_outcomes_are_handed_on_or_reported() {
    let (result, running) = poll_outcome(ChannelPoll::Received(Ok::<u32, String>(3)));
    assert_eq!((result, running), (Some(Ok(3)), false));
    let (result, running) = poll_outcome::<u32>(ChannelPoll::Waiting);
    assert_eq!((result, running), (None, true));
    let (result, running) = poll_outcome::<u32>(ChannelPoll::Disconnected);
    assert_eq!((result, running), (Some(Err("Background job disconnected".to_string())), false));
}
