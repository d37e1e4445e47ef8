use std::time::Duration;

use arklog::command::{command_wait_step, CommandWait};
use arklog::devices::{discovery_args, fault_log_args, label_device, phone_code_args};
use arklog::{CommandOutput, CommandPolicy, CommandRunner, DeviceLogDevice, HdcClient};

#[test]
fn lists_structured_devices_from_hdc_targets() {
    let client = HdcClient::with_runner("hdc", FixtureRunner);

    let devices = client.list_devices().expect("devices");

    assert_eq!(devices.len(), 2);
    assert_eq!(devices[0].id, "USB-01");
    assert_eq!(devices[0].label, "USB-01");
    assert_eq!(devices[0].status, "online");
    assert_eq!(devices[1].id, "USB-02");
    assert_eq!(devices[1].label, "USB-02");
    assert_eq!(devices[1].status, "offline");
}

#[test]
fn prefixes_online_device_ids_with_the_special_cust_phone_code() {
    let client = HdcClient::with_runner("hdc", PhoneCodeRunner);

    let devices = client.list_devices().expect("devices");

    assert_eq!(devices[0].id, "USB-01");
    assert_eq!(devices[0].label, "TAS-AL00 USB-01");
}


#[test]
fn device_discovery_rejects_output_above_its_memory_budget() {
    let policy = CommandPolicy::new(Duration::from_secs(1), 16);
    let client = HdcClient::with_policies("hdc", OversizedRunner, policy, policy);

    let error = client
        .list_devices()
        .expect_err("oversized discovery must fail");

    assert!(error.contains("exceeded 16 bytes"));
}


#[test]
fn ignores_diagnostics_that_do_not_match_a_device_record() {
    let client = HdcClient::with_runner("hdc", DiagnosticRunner);

    let devices = client.list_devices().expect("devices");

    assert_eq!(devices.len(), 1);
    assert_eq!(devices[0].id, "USB-01");
}

#[test]
fn rejects_connected_diagnostics_and_does_not_repeat_device_fields_in_detail() {
    let client = HdcClient::with_runner("hdc", ConnectedDiagnosticRunner);

    let devices = client.list_devices().expect("devices");

    assert_eq!(devices.len(), 1);
    assert_eq!(devices[0].id, "USB-01");
    assert_eq!(devices[0].status, "online");
    assert_eq!(devices[0].detail, "USB Phone localhost hdc");
}

#[test]
fn parses_official_verbose_target_fields_and_connection_states() {
    let client = HdcClient::with_runner("hdc", OfficialVerboseRunner);

    let devices = client.list_devices().expect("verbose devices");

    assert_eq!(devices.len(), 3);
    assert_eq!(
        (devices[0].id.as_str(), devices[0].status.as_str()),
        ("USB-01", "online")
    );
    assert_eq!(
        (devices[1].id.as_str(), devices[1].status.as_str()),
        ("192.0.2.1:8710", "online")
    );
    assert_eq!(
        (devices[2].id.as_str(), devices[2].status.as_str()),
        ("USB-03", "unauthorized")
    );
}

struct FixtureRunner;

struct OversizedRunner;

struct DiagnosticRunner;

struct ConnectedDiagnosticRunner;

struct OfficialVerboseRunner;

struct PhoneCodeRunner;

impl CommandRunner for FixtureRunner {
    fn output(&self, program: &str, args: &[String]) -> Result<CommandOutput, String> {
        if program != "hdc" || args != ["list", "targets", "-v"] {
            return Err(format!("unexpected command: {program} {}", args.join(" ")));
        }
        Ok(CommandOutput {
            success: true,
            stdout: b"USB-01\tConnected\nUSB-02\tOffline\n".to_vec(),
            stderr: Vec::new(),
        })
    }
}

impl CommandRunner for OversizedRunner {
    fn output(&self, _program: &str, _args: &[String]) -> Result<CommandOutput, String> {
        Ok(CommandOutput {
            success: true,
            stdout: vec![b'x'; 17],
            stderr: Vec::new(),
        })
    }
}

impl CommandRunner for DiagnosticRunner {
    fn output(&self, _program: &str, _args: &[String]) -> Result<CommandOutput, String> {
        Ok(CommandOutput {
            success: true,
            stdout: b"daemon unavailable\n[Fail] discovery error\nUSB-01 Connected\n".to_vec(),
            stderr: Vec::new(),
        })
    }
}

impl CommandRunner for ConnectedDiagnosticRunner {
    fn output(&self, _program: &str, _args: &[String]) -> Result<CommandOutput, String> {
        Ok(CommandOutput {
            success: true,
            stdout:
                b"com daemon reported Connected to server\nUSB-01 USB Ready Phone localhost hdc\n"
                    .to_vec(),
            stderr: Vec::new(),
        })
    }
}

impl CommandRunner for OfficialVerboseRunner {
    fn output(&self, _program: &str, _args: &[String]) -> Result<CommandOutput, String> {
        Ok(CommandOutput {
            success: true,
            stdout: b"USB-01 USB Ready Phone hdc-1\n192.0.2.1:8710 TCP Connected Tablet hdc-2\nUSB-03 USB Unauthorized Phone hdc-3\n".to_vec(),
            stderr: Vec::new(),
        })
    }
}

impl CommandRunner for PhoneCodeRunner {
    fn output(&self, program: &str, args: &[String]) -> Result<CommandOutput, String> {
        if program != "hdc" {
            return Err(format!("unexpected program: {program}"));
        }
        let stdout = match args {
            [list, targets, verbose]
                if [list.as_str(), targets.as_str(), verbose.as_str()]
                    == ["list", "targets", "-v"] =>
            {
                b"USB-01 USB Ready Phone hdc-1\n".to_vec()
            }
            [target, id, shell, command]
                if target == "-t"
                    && id == "USB-01"
                    && shell == "shell"
                    && command == "ls -1 /version/special_cust" =>
            {
                b"TAS-AL00\n".to_vec()
            }
            _ => return Err(format!("unexpected command: {program} {}", args.join(" "))),
        };
        Ok(CommandOutput {
            success: true,
            stdout,
            stderr: Vec::new(),
        })
    }
}


#[test]
fn lookups_label_only_online_devices_that_printed_a_code() {
    let online = DeviceLogDevice {
        id: "USB-01".to_string(),
        label: "USB-01".to_string(),
        status: "online".to_string(),
        detail: "USB Phone".to_string(),
    };
    let found = CommandOutput { success: true, stdout: b"\n  TAS-AL00 \n".to_vec(), stderr: Vec::new() };
    assert_eq!(label_device(&online, Ok(found)).label, "TAS-AL00 USB-01");
    let failed = CommandOutput { success: false, stdout: b"TAS-AL00\n".to_vec(), stderr: Vec::new() };
    assert_eq!(label_device(&online, Ok(failed)).label, "USB-01");
    assert_eq!(label_device(&online, Err("timed out".to_string())).label, "USB-01");
    let unusable = CommandOutput { success: true, stdout: b"a/b\n".to_vec(), stderr: Vec::new() };
    assert_eq!(label_device(&online, Ok(unusable)).label, "USB-01");

    let offline = DeviceLogDevice { status: "offline".to_string(), ..online };
    let found = CommandOutput { success: true, stdout: b"TAS-AL00\n".to_vec(), stderr: Vec::new() };
    assert_eq!(label_device(&offline, Ok(found)).label, "USB-01");

    assert_eq!(discovery_args(), ["list", "targets", "-v"]);
    assert_eq!(phone_code_args("USB-01"), ["-t", "USB-01", "shell", "ls -1 /version/special_cust"]);
    assert_eq!(
        fault_log_args("USB-01"),
        ["-t", "USB-01", "shell", "hidumper -s 1201 -a \"-p Faultlogger -l -d\""]
    );
}

#[test]
fn device_discovery_kills_a_command_that_exceeds_its_deadline() {
    let policy = CommandPolicy::new(Duration::from_millis(100), 4 * 1024);
    assert_eq!(command_wait_step(false, 0, 99, policy, "slow-hdc"), CommandWait::Wait);
    let CommandWait::KillTimedOut(error) = command_wait_step(false, 0, 100, policy, "slow-hdc") else {
        panic!("slow discovery must fail");
    };
    assert!(error.to_ascii_lowercase().contains("timed out"));
    assert_eq!(error, "Command timed out after 100 ms: slow-hdc");
    assert_eq!(command_wait_step(true, 0, 5_000, policy, "slow-hdc"), CommandWait::Collect);
}

#[test]
fn device_discovery_kills_a_still_running_command_as_soon_as_output_overflows() {
    let policy = CommandPolicy::new(Duration::from_secs(3), 64);
    assert_eq!(command_wait_step(false, 64, 10, policy, "chatty-hdc"), CommandWait::Wait);
    let CommandWait::KillOverBudget(error) = command_wait_step(false, 65, 10, policy, "chatty-hdc")
    else {
        panic!("oversized command must fail");
    };
    assert!(error.contains("exceeded 64 bytes"));
}
