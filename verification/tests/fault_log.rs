use arklog::fault_log::{export_file_name, safe_filename_part};
use arklog::{
    CommandOutput, CommandRunner, DeviceFaultLogStatus, HdcClient,
};

#[test]
fn fetches_and_splits_device_fault_logs_through_hdc() {
    let client = HdcClient::with_runner("hdc", ReadyFaultLogRunner);

    let result = client.list_fault_logs("USB-01").expect("fault logs");

    assert_eq!(result.device_id, "USB-01");
    assert_eq!(result.status, DeviceFaultLogStatus::Ready);
    assert_eq!(result.entries.len(), 2);
    assert_eq!(result.entries[0].id, "USB-01-fault-1");
    assert!(result.entries[0].raw.contains("at render"));
    assert!(result.entries[1].raw.contains("APP_KILLED"));
    assert_eq!(
        result.command,
        "hdc -t USB-01 shell hidumper -s 1201 -a \"-p Faultlogger -l -d\""
    );
}

#[test]
fn reports_connect_server_failure_as_unavailable_data() {
    let client = HdcClient::with_runner("hdc", UnavailableFaultLogRunner);

    let result = client.list_fault_logs("USB-01").expect("structured result");

    assert_eq!(result.status, DeviceFaultLogStatus::Unavailable);
    assert!(result.entries.is_empty());
    assert_eq!(result.message, "Connect server failed");
}

#[test]
fn reports_permission_failure_as_unauthorized_data() {
    let client = HdcClient::with_runner("hdc", UnauthorizedFaultLogRunner);

    let result = client.list_fault_logs("USB-01").expect("structured result");

    assert_eq!(result.status, DeviceFaultLogStatus::Unauthorized);
    assert_eq!(result.message, "permission denied: device unauthorized");
}

#[test]
fn reports_hidumper_dump_permission_failure_even_when_the_command_exits_successfully() {
    let client = HdcClient::with_runner("hdc", HidumperPermissionFaultLogRunner);

    let result = client.list_fault_logs("USB-01").expect("structured result");

    assert_eq!(result.status, DeviceFaultLogStatus::Unauthorized);
    assert_eq!(result.message, "dump operation is not permitted.");
    assert!(result.entries.is_empty());
}

#[test]
fn reports_hidumper_service_not_ready_as_unavailable() {
    let client = HdcClient::with_runner("hdc", HidumperNotReadyFaultLogRunner);

    let result = client.list_fault_logs("USB-01").expect("structured result");

    assert_eq!(result.status, DeviceFaultLogStatus::Unavailable);
    assert_eq!(result.message, "Service is not ready.");
    assert!(result.entries.is_empty());
}

#[test]
fn reports_empty_and_generic_command_results_without_entries() {
    let empty = HdcClient::with_runner(
        "hdc",
        FixedFaultLogRunner {
            success: true,
            stdout: "No fault log exist.\nFault log list:\n******\n******\n",
            stderr: "",
        },
    )
    .list_fault_logs("USB-01")
    .expect("empty result");
    let failed = HdcClient::with_runner(
        "hdc",
        FixedFaultLogRunner {
            success: false,
            stdout: "",
            stderr: "faultloggerd failed to dump",
        },
    )
    .list_fault_logs("USB-01")
    .expect("error result");

    assert_eq!(empty.status, DeviceFaultLogStatus::Empty);
    assert_eq!(empty.message, "No fault logs found");
    assert_eq!(failed.status, DeviceFaultLogStatus::Error);
    assert_eq!(failed.message, "faultloggerd failed to dump");
    assert!(failed.entries.is_empty());
}


struct ReadyFaultLogRunner;

struct UnavailableFaultLogRunner;

struct UnauthorizedFaultLogRunner;

struct HidumperPermissionFaultLogRunner;

struct HidumperNotReadyFaultLogRunner;

struct FixedFaultLogRunner {
    success: bool,
    stdout: &'static str,
    stderr: &'static str,
}

impl CommandRunner for ReadyFaultLogRunner {
    fn output(&self, program: &str, args: &[String]) -> Result<CommandOutput, String> {
        assert_eq!(program, "hdc");
        assert_eq!(
            args,
            [
                "-t",
                "USB-01",
                "shell",
                "hidumper -s 1201 -a \"-p Faultlogger -l -d\""
            ]
        );
        Ok(CommandOutput {
            success: true,
            stdout: b"Fault log list:\n******\njscrash-demo-20010001-1756600000\nReason: JS_ERROR\nSummary: Render failed\n\nStacktrace:\n  at render (index.ets:4:2)\n******\nappfreeze-demo-20010001-1756600100\nReason: APP_KILLED\nSummary: Force stop\n******\n".to_vec(),
            stderr: Vec::new(),
        })
    }
}

impl CommandRunner for UnavailableFaultLogRunner {
    fn output(&self, _program: &str, _args: &[String]) -> Result<CommandOutput, String> {
        Ok(CommandOutput {
            success: false,
            stdout: Vec::new(),
            stderr: b"Connect server failed\n".to_vec(),
        })
    }
}

impl CommandRunner for UnauthorizedFaultLogRunner {
    fn output(&self, _program: &str, _args: &[String]) -> Result<CommandOutput, String> {
        Ok(CommandOutput {
            success: false,
            stdout: Vec::new(),
            stderr: b"permission denied: device unauthorized\n".to_vec(),
        })
    }
}

impl CommandRunner for HidumperPermissionFaultLogRunner {
    fn output(&self, _program: &str, _args: &[String]) -> Result<CommandOutput, String> {
        Ok(CommandOutput {
            success: true,
            stdout: b"dump operation is not permitted.\n".to_vec(),
            stderr: Vec::new(),
        })
    }
}

impl CommandRunner for HidumperNotReadyFaultLogRunner {
    fn output(&self, _program: &str, _args: &[String]) -> Result<CommandOutput, String> {
        Ok(CommandOutput {
            success: true,
            stdout: b"Service is not ready.\n".to_vec(),
            stderr: Vec::new(),
        })
    }
}

impl CommandRunner for FixedFaultLogRunner {
    fn output(&self, _program: &str, _args: &[String]) -> Result<CommandOutput, String> {
        Ok(CommandOutput {
            success: self.success,
            stdout: self.stdout.as_bytes().to_vec(),
            stderr: self.stderr.as_bytes().to_vec(),
        })
    }
}

#[test]
fn export_file_names_are_safe_for_any_device_id() {
    assert_eq!(safe_filename_part("192.0.2.1:8710"), "192.0.2.1_8710");
    assert_eq!(safe_filename_part(""), "device");
    assert_eq!(export_file_name("USB 01"), "arklog-USB_01-faults.txt");
}
