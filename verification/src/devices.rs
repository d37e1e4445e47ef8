use std::time::Duration;

use vstd::prelude::*;
use vstd::utf8::{decode_utf8, valid_utf8};

use crate::command::{millis_of, output_bytes, CommandOutput, CommandPolicy, CommandRunner};
use crate::query_history::string_views;
use crate::decode::{lossy_utf8, utf8_lossy, utf8_strict};
use crate::fault_log::{fault_result_spec, normalize_fault_log_output, DeviceFaultLogFetchResult};
use crate::text::{
    chars_eq_str, chars_of, contains_seq, contains_str, is_whitespace, is_ws, join_spaces,
    join_with_spaces, lines_seq, lower_seq, push_str, slice_to_vec, split_lines, split_whitespace,
    split_ws_seq, string_from, string_of, to_ascii_lowercase, trim, trim_seq, views,
};

verus! {

/// A device that `hdc list targets -v` reported.
#[derive(Debug)]
pub struct DeviceLogDevice {
    pub id: String,
    pub label: String,
    pub status: String,
    pub detail: String,
}

/// A device as plain text fields.
pub struct DeviceView {
    pub id: Seq<char>,
    pub label: Seq<char>,
    pub status: Seq<char>,
    pub detail: Seq<char>,
}

impl View for DeviceLogDevice {
    type V = DeviceView;

    open spec fn view(&self) -> DeviceView {
        DeviceView { id: self.id@, label: self.label@, status: self.status@, detail: self.detail@ }
    }
}

pub open spec fn device_views(v: Seq<DeviceLogDevice>) -> Seq<DeviceView> {
    v.map_values(|d: DeviceLogDevice| d@)
}

impl DeviceLogDevice {
    /// A field-by-field copy.
    pub fn duplicate(&self) -> (r: DeviceLogDevice)
        ensures
            r@ == self@,
    {
        DeviceLogDevice {
            id: self.id.clone(),
            label: self.label.clone(),
            status: self.status.clone(),
            detail: self.detail.clone(),
        }
    }
}

/// The status that a raw HDC connection state stands for, if it is one.
pub open spec fn normalized_status(value: Seq<char>) -> Option<Seq<char>> {
    let l = lower_seq(value);
    if l == "ready"@ || l == "connected"@ || l == "online"@ {
        Some("online"@)
    } else if l == "offline"@ {
        Some("offline"@)
    } else if l == "unauthorized"@ {
        Some("unauthorized"@)
    } else if l == "unknown"@ {
        Some("unknown"@)
    } else {
        None
    }
}

/// Whether `value` names an HDC transport (USB or TCP, in any ASCII case).
pub open spec fn is_transport(value: Seq<char>) -> bool {
    lower_seq(value) == "usb"@ || lower_seq(value) == "tcp"@
}

/// The device that one line of `hdc list targets -v` describes, if any:
/// `ID STATUS DETAIL...` or `ID TRANSPORT STATUS DETAIL...`.
pub open spec fn parse_target_line(raw: Seq<char>) -> Option<DeviceView> {
    let line = trim_seq(raw);
    if line.len() == 0 || contains_seq(line, "Connect server failed"@) {
        None
    } else {
        let f = split_ws_seq(line);
        if f.len() >= 2 && normalized_status(f[1]) is Some {
            Some(
                DeviceView {
                    id: f[0],
                    label: f[0],
                    status: normalized_status(f[1])->0,
                    detail: join_spaces(f.subrange(2, f.len() as int)),
                },
            )
        } else if f.len() >= 3 && is_transport(f[1]) && normalized_status(f[2]) is Some {
            Some(
                DeviceView {
                    id: f[0],
                    label: f[0],
                    status: normalized_status(f[2])->0,
                    detail: join_spaces(seq![f[1]] + f.subrange(3, f.len() as int)),
                },
            )
        } else {
            None
        }
    }
}

/// The devices that the lines `ls` describe, in order.
pub open spec fn parse_target_lines(ls: Seq<Seq<char>>) -> Seq<DeviceView>
    decreases ls.len(),
{
    if ls.len() == 0 {
        Seq::empty()
    } else {
        let before = parse_target_lines(ls.drop_last());
        match parse_target_line(ls.last()) {
            Some(d) => before.push(d),
            None => before,
        }
    }
}

/// The devices that a `hdc list targets -v` output describes.
pub open spec fn parse_targets(output: Seq<char>) -> Seq<DeviceView> {
    parse_target_lines(lines_seq(output))
}

/// `normalized_status`, computed.
pub fn normalize_device_status(value: &[char]) -> (r: Option<String>)
    ensures
        match r {
            Some(s) => normalized_status(value@) == Some(s@),
            None => normalized_status(value@) is None,
        },
{
    let l = to_ascii_lowercase(value);
    if chars_eq_str(&l, "ready") || chars_eq_str(&l, "connected") || chars_eq_str(&l, "online") {
        Some(string_from("online"))
    } else if chars_eq_str(&l, "offline") {
        Some(string_from("offline"))
    } else if chars_eq_str(&l, "unauthorized") {
        Some(string_from("unauthorized"))
    } else if chars_eq_str(&l, "unknown") {
        Some(string_from("unknown"))
    } else {
        None
    }
}

/// `is_transport`, computed.
pub fn is_hdc_transport(value: &[char]) -> (r: bool)
    ensures
        r == is_transport(value@),
{
    let l = to_ascii_lowercase(value);
    chars_eq_str(&l, "usb") || chars_eq_str(&l, "tcp")
}

/// The device that one raw line describes.
pub fn parse_target_line_exec(raw: &[char]) -> (r: Option<DeviceLogDevice>)
    ensures
        match r {
            Some(d) => parse_target_line(raw@) == Some(d@),
            None => parse_target_line(raw@) is None,
        },
{
    let line = trim(raw);
    if line.len() == 0 || contains_str(&line, "Connect server failed") {
        return None;
    }
    let f = split_whitespace(&line);
    let ghost fv = views(f@);
    assert(fv == split_ws_seq(line@));
    if f.len() >= 2 {
        assert(fv[1] == f@[1]@);
        if let Some(status) = normalize_device_status(&f[1]) {
            let detail = join_with_spaces(&f, 2);
            assert(views(f@).subrange(2, f.len() as int) =~= fv.subrange(2, fv.len() as int));
            return Some(
                DeviceLogDevice {
                    id: string_of(&f[0]),
                    label: string_of(&f[0]),
                    status,
                    detail: string_of(&detail),
                },
            );
        }
    }
    if f.len() >= 3 {
        assert(fv[1] == f@[1]@ && fv[2] == f@[2]@);
        if is_hdc_transport(&f[1]) {
            if let Some(status) = normalize_device_status(&f[2]) {
                let mut rest: Vec<Vec<char>> = Vec::new();
                rest.push(slice_to_vec(&f[1], 0, f[1].len()));
                assert(f@[1]@.subrange(0, f@[1]@.len() as int) =~= f@[1]@);
                assert(views(rest@) =~= seq![fv[1]] + fv.subrange(3, 3));
                let mut k: usize = 3;
                while k < f.len()
                    invariant
                        3 <= k <= f.len(),
                        fv == views(f@),
                        views(rest@) =~= seq![fv[1]] + fv.subrange(3, k as int),
                    decreases f.len() - k,
                {
                    assert(fv[k as int] == f@[k as int]@);
                    let piece = slice_to_vec(&f[k], 0, f[k].len());
                    assert(piece@ =~= fv[k as int]);
                    let ghost old_views = views(rest@);
                    rest.push(piece);
                    assert(views(rest@) =~= old_views.push(fv[k as int]));
                    assert(views(rest@) =~= seq![fv[1]] + fv.subrange(3, k + 1));
                    k += 1;
                }
                let detail = join_with_spaces(&rest, 0);
                assert(views(rest@).subrange(0, rest.len() as int) =~= views(rest@));
                return Some(
                    DeviceLogDevice {
                        id: string_of(&f[0]),
                        label: string_of(&f[0]),
                        status,
                        detail: string_of(&detail),
                    },
                );
            }
        }
    }
    None
}

/// The devices that a `hdc list targets -v` output describes, one per
/// recognized line, in order.
pub fn parse_hdc_targets(output: &str) -> (r: Vec<DeviceLogDevice>)
    ensures
        device_views(r@) == parse_targets(output@),
{
    let text = chars_of(output);
    let lines = split_lines(&text);
    let ghost ls = views(lines@);
    let mut devices: Vec<DeviceLogDevice> = Vec::new();
    let mut i: usize = 0;
    while i < lines.len()
        invariant
            i <= lines.len(),
            ls == views(lines@),
            device_views(devices@) =~= parse_target_lines(ls.take(i as int)),
        decreases lines.len() - i,
    {
        assert(ls.take(i + 1).drop_last() =~= ls.take(i as int));
        assert(ls.take(i + 1).last() == lines@[i as int]@);
        match parse_target_line_exec(&lines[i]) {
            Some(d) => {
                devices.push(d);
            },
            None => {},
        }
        i += 1;
    }
    assert(ls.take(lines.len() as int) =~= ls);
    devices
}

/// What device discovery reports for the decoded output `text` of
/// `hdc list targets -v` and its exit status.
pub open spec fn discovery_outcome(text: Seq<char>, success: bool) -> Result<
    Seq<DeviceView>,
    Seq<char>,
> {
    let devices = parse_targets(text);
    if !success && devices.len() == 0 {
        if trim_seq(text).len() == 0 {
            Err("HDC device discovery failed"@)
        } else {
            Err(trim_seq(text))
        }
    } else {
        Ok(devices)
    }
}

/// Applies `discovery_outcome` to the decoded output of a discovery run.
pub fn discovery_result(text: &str, success: bool) -> (r: Result<Vec<DeviceLogDevice>, String>)
    ensures
        match r {
            Ok(ds) => discovery_outcome(text@, success) == Ok::<Seq<DeviceView>, Seq<char>>(
                device_views(ds@),
            ),
            Err(e) => discovery_outcome(text@, success) == Err::<Seq<DeviceView>, Seq<char>>(
                e@,
            ),
        },
{
    let devices = parse_hdc_targets(text);
    if !success && devices.len() == 0 {
        let chars = chars_of(text);
        let message = trim(&chars);
        if message.len() == 0 {
            return Err(string_from("HDC device discovery failed"));
        }
        return Err(string_of(&message));
    }
    Ok(devices)
}

/// Longest phone code accepted, in characters.
pub const PHONE_CODE_MAX_CHARS: usize = 128;

/// Whether a trimmed line is a usable phone code.
pub open spec fn is_phone_code(candidate: Seq<char>) -> bool {
    &&& candidate.len() > 0
    &&& candidate.len() <= PHONE_CODE_MAX_CHARS
    &&& forall|k: int| 0 <= k < candidate.len() ==> !is_ws(#[trigger] candidate[k])
    &&& forall|k: int|
        0 <= k < candidate.len() ==> #[trigger] candidate[k] != '/' && candidate[k] != '\\'
}

/// The first line of `ls` that, trimmed, is a phone code.
pub open spec fn first_phone_code(ls: Seq<Seq<char>>) -> Option<Seq<char>>
    decreases ls.len(),
{
    if ls.len() == 0 {
        None
    } else if is_phone_code(trim_seq(ls[0])) {
        Some(trim_seq(ls[0]))
    } else {
        first_phone_code(ls.drop_first())
    }
}

/// The phone code that `ls -1 /version/special_cust` printed, if its output is
/// UTF-8 and holds one.
pub open spec fn phone_code_of(output: Seq<u8>) -> Option<Seq<char>> {
    if valid_utf8(output) {
        first_phone_code(lines_seq(decode_utf8(output)))
    } else {
        None
    }
}

fn is_phone_code_exec(candidate: &[char]) -> (r: bool)
    ensures
        r == is_phone_code(candidate@),
{
    if candidate.len() == 0 || candidate.len() > PHONE_CODE_MAX_CHARS {
        return false;
    }
    let mut k: usize = 0;
    while k < candidate.len()
        invariant
            k <= candidate.len(),
            forall|j: int|
                0 <= j < k ==> !is_ws(#[trigger] candidate@[j]) && candidate@[j] != '/'
                    && candidate@[j] != '\\',
        decreases candidate.len() - k,
    {
        let c = candidate[k];
        if is_whitespace(c) || c == '/' || c == '\\' {
            return false;
        }
        k += 1;
    }
    true
}

/// The phone code in the output of `ls -1 /version/special_cust`.
pub fn parse_phone_code(output: &[u8]) -> (r: Option<String>)
    ensures
        match r {
            Some(s) => phone_code_of(output@) == Some(s@),
            None => phone_code_of(output@) is None,
        },
{
    let text = match utf8_strict(output) {
        Some(text) => text,
        None => return None,
    };
    let chars = chars_of(text.as_str());
    let lines = split_lines(&chars);
    let ghost ls = views(lines@);
    assert(ls.skip(0) =~= ls);
    let mut i: usize = 0;
    while i < lines.len()
        invariant
            i <= lines.len(),
            ls == views(lines@),
            first_phone_code(ls) == first_phone_code(ls.skip(i as int)),
            valid_utf8(output@),
            ls == lines_seq(decode_utf8(output@)),
        decreases lines.len() - i,
    {
        let candidate = trim(&lines[i]);
        assert(ls.skip(i as int)[0] == lines@[i as int]@);
        if is_phone_code_exec(&candidate) {
            assert(ls.skip(i as int).len() > 0);
            assert(first_phone_code(ls.skip(i as int)) == Some(trim_seq(ls.skip(i as int)[0])));
            assert(valid_utf8(output@));
            assert(ls == lines_seq(decode_utf8(output@)));
            return Some(string_of(&candidate));
        }
        assert(ls.skip(i as int).drop_first() =~= ls.skip(i + 1));
        i += 1;
    }
    None
}

/// `code DEVICE_ID`: the label of a device with a known phone code.
pub open spec fn phone_code_label(code: Seq<char>, id: Seq<char>) -> Seq<char> {
    code + " "@ + id
}

/// The command that prints a device's phone code.
pub const PHONE_CODE_COMMAND: &'static str = "ls -1 /version/special_cust";

/// The output budget of a phone code lookup.
pub const PHONE_CODE_OUTPUT_LIMIT_BYTES: usize = 4096;

/// The `hidumper` command that lists fault logs.
pub const FAULT_LOG_COMMAND: &'static str = "hidumper -s 1201 -a \"-p Faultlogger -l -d\"";

/// The command line that a fault log query reports: `EXE -t ID shell HIDUMPER...`.
pub open spec fn fault_command_text(executable: Seq<char>, device_id: Seq<char>) -> Seq<char> {
    executable + " -t "@ + device_id + " shell "@ + FAULT_LOG_COMMAND@
}

/// The phone code that a lookup found: the first usable line of what a
/// successful `ls -1 /version/special_cust` printed; none when the lookup
/// failed, exited unsuccessfully or printed no usable line.
pub open spec fn lookup_code(lookup: Result<CommandOutput, String>) -> Option<Seq<char>> {
    match lookup {
        Ok(output) => if output.success {
            phone_code_of(output.stdout@)
        } else {
            None
        },
        Err(_) => None,
    }
}

/// The device `d` after its phone code lookup: an online device whose lookup
/// found a code is labelled `CODE ID`; any other device is left as it is.
pub open spec fn label_spec(d: DeviceView, lookup: Result<CommandOutput, String>) -> DeviceView {
    if d.status == "online"@ {
        match lookup_code(lookup) {
            Some(code) => DeviceView { label: phone_code_label(code, d.id), ..d },
            None => d,
        }
    } else {
        d
    }
}

/// Labels `d` from the result of its phone code lookup (`label_spec`).
pub fn label_device(d: &DeviceLogDevice, lookup: Result<CommandOutput, String>) -> (r: DeviceLogDevice)
    ensures
        r@ == label_spec(d@, lookup),
{
    let mut r = d.duplicate();
    let status = chars_of(d.status.as_str());
    if chars_eq_str(&status, "online") {
        let code = match lookup {
            Ok(output) => if output.success {
                parse_phone_code(output.stdout.as_slice())
            } else {
                None
            },
            Err(_) => None,
        };
        if let Some(code) = code {
            let mut label = code;
            push_str(&mut label, " ");
            push_str(&mut label, d.id.as_str());
            r.label = label;
        }
    }
    r
}

/// The arguments of device discovery: `list targets -v`.
pub fn discovery_args() -> (r: Vec<String>)
    ensures
        string_views(r@) == seq!["list"@, "targets"@, "-v"@],
{
    let mut r: Vec<String> = Vec::new();
    r.push(string_from("list"));
    r.push(string_from("targets"));
    r.push(string_from("-v"));
    assert(string_views(r@) =~= seq!["list"@, "targets"@, "-v"@]);
    r
}

/// The arguments that look up the phone code of `device_id`:
/// `-t ID shell ls -1 /version/special_cust`.
pub fn phone_code_args(device_id: &str) -> (r: Vec<String>)
    ensures
        string_views(r@) == seq!["-t"@, device_id@, "shell"@, PHONE_CODE_COMMAND@],
{
    let mut r: Vec<String> = Vec::new();
    r.push(string_from("-t"));
    r.push(string_from(device_id));
    r.push(string_from("shell"));
    r.push(string_from(PHONE_CODE_COMMAND));
    assert(string_views(r@) =~= seq!["-t"@, device_id@, "shell"@, PHONE_CODE_COMMAND@]);
    r
}

/// The arguments that list the fault logs of `device_id`:
/// `-t ID shell hidumper -s 1201 -a "-p Faultlogger -l -d"`.
pub fn fault_log_args(device_id: &str) -> (r: Vec<String>)
    ensures
        string_views(r@) == seq!["-t"@, device_id@, "shell"@, FAULT_LOG_COMMAND@],
{
    let mut r: Vec<String> = Vec::new();
    r.push(string_from("-t"));
    r.push(string_from(device_id));
    r.push(string_from("shell"));
    r.push(string_from(FAULT_LOG_COMMAND));
    assert(string_views(r@) =~= seq!["-t"@, device_id@, "shell"@, FAULT_LOG_COMMAND@]);
    r
}

/// Runs `hdc` through a `CommandRunner`.
pub struct HdcClient<R> {
    executable: String,
    runner: R,
    device_policy: CommandPolicy,
    fault_policy: CommandPolicy,
}

/// The duration that `Duration::from_secs` makes of `secs` seconds.
pub uninterp spec fn seconds_duration(secs: u64) -> Duration;

/// `Duration::from_secs`: a duration of `secs` whole seconds, which is
/// `secs * 1000` whole milliseconds.
#[verifier::external_body]
fn seconds(secs: u64) -> (r: Duration)
    ensures
        r == seconds_duration(secs),
        millis_of(r) == secs as int * 1000,
{
    Duration::from_secs(secs)
}

impl<R: CommandRunner> HdcClient<R> {
    pub closed spec fn executable(&self) -> Seq<char> {
        self.executable@
    }

    pub closed spec fn device_limit(&self) -> usize {
        self.device_policy.max_output_bytes()
    }

    pub closed spec fn fault_limit(&self) -> usize {
        self.fault_policy.max_output_bytes()
    }

    pub closed spec fn device_deadline(&self) -> Duration {
        self.device_policy.deadline()
    }

    pub closed spec fn fault_deadline(&self) -> Duration {
        self.fault_policy.deadline()
    }

    /// A client with 3 s / 256 KiB for discovery and 5 s / 4 MiB for fault logs.
    pub fn with_runner(executable: &str, runner: R) -> (r: Self)
        ensures
            r.executable() == executable@,
            r.device_limit() == 256 * 1024,
            r.fault_limit() == 4 * 1024 * 1024,
            r.device_deadline() == seconds_duration(3),
            r.fault_deadline() == seconds_duration(5),
    {
        Self::with_policies(
            executable,
            runner,
            CommandPolicy::new(seconds(3), 256 * 1024),
            CommandPolicy::new(seconds(5), 4 * 1024 * 1024),
        )
    }

    pub fn with_policies(
        executable: &str,
        runner: R,
        device_policy: CommandPolicy,
        fault_policy: CommandPolicy,
    ) -> (r: Self)
        ensures
            r.executable() == executable@,
            r.device_limit() == device_policy.max_output_bytes(),
            r.fault_limit() == fault_policy.max_output_bytes(),
            r.device_deadline() == device_policy.deadline(),
            r.fault_deadline() == fault_policy.deadline(),
    {
        HdcClient { executable: string_from(executable), runner, device_policy, fault_policy }
    }

    /// Lists the devices that `hdc list targets -v` (`discovery_args`) reports.
    /// Each online device's phone code is looked up (`phone_code_args`), and the
    /// device is labelled from that lookup (`label_spec`): `CODE ID` when a code
    /// was found, its id otherwise.
    pub fn list_devices(&self) -> (r: Result<Vec<DeviceLogDevice>, String>)
        ensures
            r matches Ok(ds) ==> exists|out: Seq<u8>, err: Seq<u8>, success: bool|
                #[trigger] discovery_outcome(lossy_utf8(out) + lossy_utf8(err), success) matches Ok(parsed)
                    && ds@.len() == parsed.len() && forall|i: int|
                    0 <= i < ds@.len() ==> (#[trigger] parsed[i]).label == parsed[i].id && exists|
                        lookup: Result<CommandOutput, String>,
                    | ds@[i]@ == #[trigger] label_spec(parsed[i], lookup),
    {
        let args = discovery_args();
        let output = self.runner.output_with_policy(
            self.executable.as_str(),
            args.as_slice(),
            self.device_policy,
        )?;
        let mut combined = utf8_lossy(output.stdout.as_slice());
        let stderr = utf8_lossy(output.stderr.as_slice());
        push_str(&mut combined, stderr.as_str());
        let devices = discovery_result(combined.as_str(), output.success)?;
        let ghost parsed = device_views(devices@);
        let ghost out_bytes = output.stdout@;
        let ghost err_bytes = output.stderr@;
        assert(forall|i: int| 0 <= i < parsed.len() ==> parsed[i].label == parsed[i].id) by {
            lemma_parsed_labels(lines_seq(combined@));
        }
        let mut labelled: Vec<DeviceLogDevice> = Vec::new();
        let ghost mut lookups: Seq<Result<CommandOutput, String>> = Seq::empty();
        let mut i: usize = 0;
        while i < devices.len()
            invariant
                i <= devices.len(),
                parsed == device_views(devices@),
                forall|k: int| 0 <= k < parsed.len() ==> parsed[k].label == parsed[k].id,
                labelled@.len() == i,
                lookups.len() == i,
                forall|k: int| 0 <= k < i ==> #[trigger] labelled@[k]@ == label_spec(parsed[k], lookups[k]),
            decreases devices.len() - i,
        {
            let device = &devices[i];
            assert(device@ == parsed[i as int]);
            let status = chars_of(device.status.as_str());
            let lookup = if chars_eq_str(&status, "online") {
                self.phone_code_lookup(device.id.as_str())
            } else {
                Err(String::new())
            };
            let ghost used = lookup;
            let next = label_device(device, lookup);
            assert(next@ == label_spec(parsed[i as int], used));
            labelled.push(next);
            proof {
                lookups = lookups.push(used);
            }
            i += 1;
        }
        assert forall|k: int| 0 <= k < labelled@.len() implies (#[trigger] parsed[k]).label == parsed[k].id
            && exists|lookup: Result<CommandOutput, String>|
            labelled@[k]@ == #[trigger] label_spec(parsed[k], lookup) by {
            assert(labelled@[k]@ == label_spec(parsed[k], lookups[k]));
        }
        assert(discovery_outcome(lossy_utf8(out_bytes) + lossy_utf8(err_bytes), output.success)
            matches Ok(p) && p == parsed);
        Ok(labelled)
    }

    /// Reads the fault logs of `device_id` with `hidumper`.
    pub fn list_fault_logs(&self, device_id: &str) -> (r: Result<DeviceFaultLogFetchResult, String>)
        ensures
            trim_seq(device_id@).len() == 0 ==> r is Err && r->Err_0@ == "Device id is required"@,
            r matches Ok(res) ==> exists|out: Seq<u8>, err: Seq<u8>, success: bool|
                res@ == fault_result_spec(
                    device_id@,
                    fault_command_text(self.executable(), device_id@),
                    lossy_utf8(out),
                    lossy_utf8(err),
                    success,
                ),
    {
        let id_chars = chars_of(device_id);
        if trim(&id_chars).len() == 0 {
            return Err(string_from("Device id is required"));
        }
        let args = fault_log_args(device_id);
        let mut command = self.executable.clone();
        push_str(&mut command, " -t ");
        push_str(&mut command, device_id);
        push_str(&mut command, " shell ");
        push_str(&mut command, FAULT_LOG_COMMAND);
        let output = self.runner.output_with_policy(
            self.executable.as_str(),
            args.as_slice(),
            self.fault_policy,
        )?;
        assert(command@ =~= fault_command_text(self.executable(), device_id@));
        let result = normalize_fault_log_output(
            device_id,
            command,
            output.stdout.as_slice(),
            output.stderr.as_slice(),
            output.success,
        );
        assert(result@ == fault_result_spec(
            device_id@,
            fault_command_text(self.executable(), device_id@),
            lossy_utf8(output.stdout@),
            lossy_utf8(output.stderr@),
            output.success,
        ));
        Ok(result)
    }

    /// Runs the phone code lookup of `device_id` (`phone_code_args`) within 1 s
    /// and 4 KiB.
    fn phone_code_lookup(&self, device_id: &str) -> (r: Result<CommandOutput, String>)
        ensures
            r matches Ok(output) ==> output_bytes(output) <= PHONE_CODE_OUTPUT_LIMIT_BYTES,
    {
        let args = phone_code_args(device_id);
        self.runner.output_with_policy(
            self.executable.as_str(),
            args.as_slice(),
            CommandPolicy::new(seconds(1), PHONE_CODE_OUTPUT_LIMIT_BYTES),
        )
    }
}

proof fn lemma_parsed_labels(ls: Seq<Seq<char>>)
    ensures
        forall|i: int|
            0 <= i < parse_target_lines(ls).len() ==> (#[trigger] parse_target_lines(ls)[i]).label
                == parse_target_lines(ls)[i].id,
    decreases ls.len(),
{
    if ls.len() > 0 {
        lemma_parsed_labels(ls.drop_last());
        let before = parse_target_lines(ls.drop_last());
        match parse_target_line(ls.last()) {
            Some(d) => {
                assert(d.label == d.id);
                assert forall|i: int| 0 <= i < before.push(d).len() implies (#[trigger] before.push(d)[i]).label == before.push(d)[i].id by {
                    if i < before.len() {
                        assert(before.push(d)[i] == before[i]);
                    }
                }
            },
            None => {},
        }
    }
}

} // verus!
