use vstd::prelude::*;

use crate::devices::DeviceLogDevice;
use crate::fault_log::{DeviceFaultLogFetchResult, DeviceFaultLogRawEntry, DeviceFaultLogStatus};
use crate::runtime_state::{
    connection_message, ConnectionState, DesiredStream, FaultLogState, StreamAction, StreamState,
};
use crate::stream::{exit_message, exit_message_spec};
use crate::text::{str_eq, string_from};

verus! {

/// How long to wait before looking for devices again while no stream runs.
pub const NO_DEVICE_REFRESH_MILLIS: u64 = 1000;

/// Waits before retrying a failed stream start, by the number of failures in a row.
pub open spec fn retry_delays() -> Seq<u64> {
    seq![500u64, 1000u64, 2000u64, 4000u64, 5000u64]
}

/// The wait before retrying after `failures` failed starts in a row: 500 ms,
/// then 1 s, 2 s and 4 s, then 5 s from then on.
pub open spec fn retry_delay_spec(failures: int) -> u64 {
    let index = if failures <= 1 {
        0
    } else if failures - 1 >= 4 {
        4
    } else {
        failures - 1
    };
    retry_delays()[index]
}

pub fn stream_start_retry_delay(consecutive_failures: usize) -> (r: u64)
    ensures
        r == retry_delay_spec(consecutive_failures as int),
{
    let delays: [u64; 5] = [500, 1000, 2000, 4000, 5000];
    let index = if consecutive_failures <= 1 {
        0
    } else if consecutive_failures - 1 >= 4 {
        4
    } else {
        consecutive_failures - 1
    };
    assert(delays@ =~= retry_delays());
    delays[index]
}

/// The start made once at launch: while the first discovery runs it waits;
/// once discovery has settled it is done, starting the stream only when a
/// device is ready. Given whether it still waits, returns whether it waits
/// afterwards and whether to start the stream now.
pub fn launch_start_step(waiting: bool, connection: &ConnectionState) -> (r: (bool, bool))
    ensures
        r.0 == (waiting && *connection == ConnectionState::Refreshing),
        r.1 == (waiting && *connection == ConnectionState::Ready),
{
    if !waiting {
        return (false, false);
    }
    match connection {
        ConnectionState::Refreshing => (true, false),
        ConnectionState::Ready => (false, true),
        _ => (false, false),
    }
}

/// Device discovery runs on a timer while waiting for a device, never during a
/// healthy stream.
pub fn device_refresh_interval(stream_state: &StreamState) -> (r: Option<u64>)
    ensures
        r == (if *stream_state is Streaming {
            None
        } else {
            Some(NO_DEVICE_REFRESH_MILLIS)
        }),
{
    match stream_state {
        StreamState::Streaming => None,
        _ => Some(NO_DEVICE_REFRESH_MILLIS),
    }
}

pub open spec fn pending_stream_action_spec(desired: DesiredStream, state: StreamState) -> Option<
    StreamAction,
> {
    match desired {
        DesiredStream::Running => match state {
            StreamState::Stopped | StreamState::Stopping => Some(StreamAction::Start),
            StreamState::Error { active, .. } => if active {
                None
            } else {
                Some(StreamAction::Start)
            },
            _ => None,
        },
        DesiredStream::Stopped => match state {
            StreamState::Starting | StreamState::Streaming => Some(StreamAction::Stop),
            StreamState::Error { active, .. } => if active {
                Some(StreamAction::Stop)
            } else {
                None
            },
            _ => None,
        },
    }
}

/// The stream action still owed to reach what the user asked for.
pub fn pending_stream_action(desired_stream: DesiredStream, stream_state: &StreamState) -> (r:
    Option<StreamAction>)
    ensures
        r == pending_stream_action_spec(desired_stream, *stream_state),
{
    match desired_stream {
        DesiredStream::Running => match stream_state {
            StreamState::Stopped | StreamState::Stopping => Some(StreamAction::Start),
            StreamState::Error { active, .. } => if *active {
                None
            } else {
                Some(StreamAction::Start)
            },
            _ => None,
        },
        DesiredStream::Stopped => match stream_state {
            StreamState::Starting | StreamState::Streaming => Some(StreamAction::Stop),
            StreamState::Error { active, .. } => if *active {
                Some(StreamAction::Stop)
            } else {
                None
            },
            _ => None,
        },
    }
}

pub open spec fn is_online(d: DeviceLogDevice) -> bool {
    d.status@ == "online"@
}

/// How many of `ds` are online.
pub open spec fn online_count(ds: Seq<DeviceLogDevice>) -> nat
    decreases ds.len(),
{
    if ds.len() == 0 {
        0
    } else {
        online_count(ds.drop_last()) + if is_online(ds.last()) {
            1nat
        } else {
            0nat
        }
    }
}

/// The first online device at or after `i`, or the length when there is none.
pub open spec fn first_online_from(ds: Seq<DeviceLogDevice>, i: int) -> int
    decreases ds.len() - i,
{
    if i < 0 || i >= ds.len() {
        ds.len() as int
    } else if is_online(ds[i]) {
        i
    } else {
        first_online_from(ds, i + 1)
    }
}

/// The first device at or after `i` with id `id`, or the length when there is none.
pub open spec fn position_from(ds: Seq<DeviceLogDevice>, id: Seq<char>, i: int) -> int
    decreases ds.len() - i,
{
    if i < 0 || i >= ds.len() {
        ds.len() as int
    } else if ds[i].id@ == id {
        i
    } else {
        position_from(ds, id, i + 1)
    }
}

/// Connection state and selection for a freshly listed set of devices: the one
/// online device is selected; with several, the user chooses.
pub open spec fn initial_selection_spec(ds: Seq<DeviceLogDevice>) -> (ConnectionState, int) {
    let n = online_count(ds);
    if n == 0 {
        (ConnectionState::NoDevices, 0)
    } else if n == 1 {
        (ConnectionState::Ready, first_online_from(ds, 0))
    } else {
        (ConnectionState::SelectionRequired, ds.len() as int)
    }
}

proof fn lemma_online_count_step(ds: Seq<DeviceLogDevice>, i: int)
    requires
        0 <= i < ds.len(),
    ensures
        online_count(ds.take(i + 1)) == online_count(ds.take(i)) + if is_online(ds[i]) {
            1nat
        } else {
            0nat
        },
{
    assert(ds.take(i + 1).drop_last() =~= ds.take(i));
}

fn is_online_exec(d: &DeviceLogDevice) -> (r: bool)
    ensures
        r == is_online(*d),
{
    str_eq(d.status.as_str(), "online")
}

/// How many devices are online, and the first of them (the length when none is).
fn scan_online(ds: &[DeviceLogDevice]) -> (r: (usize, usize))
    ensures
        r.0 == online_count(ds@),
        r.1 == first_online_from(ds@, 0),
{
    let mut count: usize = 0;
    let mut first = ds.len();
    let mut i: usize = 0;
    while i < ds.len()
        invariant
            i <= ds.len(),
            count == online_count(ds@.take(i as int)),
            count <= i,
            first == (if count == 0 {
                ds.len() as int
            } else {
                first_online_from(ds@, 0)
            }),
            count == 0 ==> first_online_from(ds@, 0) == first_online_from(ds@, i as int),
        decreases ds.len() - i,
    {
        proof {
            lemma_online_count_step(ds@, i as int);
        }
        if is_online_exec(&ds[i]) {
            if count == 0 {
                first = i;
            }
            count = count + 1;
        }
        i += 1;
    }
    assert(ds@.take(ds.len() as int) =~= ds@);
    (count, first)
}

/// The first device with id `id`, or the length when there is none.
fn position_of(ds: &[DeviceLogDevice], id: &str) -> (r: usize)
    ensures
        r == position_from(ds@, id@, 0),
{
    let mut i: usize = 0;
    while i < ds.len()
        invariant
            i <= ds.len(),
            position_from(ds@, id@, 0) == position_from(ds@, id@, i as int),
        decreases ds.len() - i,
    {
        if str_eq(ds[i].id.as_str(), id) {
            return i;
        }
        i += 1;
    }
    i
}

pub fn initial_selection(devices: &[DeviceLogDevice]) -> (r: (ConnectionState, usize))
    ensures
        (r.0, r.1 as int) == initial_selection_spec(devices@),
{
    let (count, first) = scan_online(devices);
    if count == 0 {
        (ConnectionState::NoDevices, 0)
    } else if count == 1 {
        (ConnectionState::Ready, first)
    } else {
        (ConnectionState::SelectionRequired, devices.len())
    }
}

/// What reconciling the stream with the user's intent calls for.
#[derive(Clone, Copy, Debug, PartialEq, Eq, Structural)]
pub enum ReconcileStep {
    /// Nothing to do now.
    Wait,
    /// Stop the running stream in the background; `true` keeps its tail visible.
    Cleanup(bool),
    /// Start a stream on the selected device.
    Start,
}

/// What a stream start attempt should do next.
#[derive(Debug, PartialEq, Eq)]
pub enum StartStep {
    /// A stream already runs.
    AlreadyStreaming,
    /// The stream cannot start; the message says why.
    Refused(String),
    /// Launch the stream on this device.
    Launch(String),
}

/// What a health check of a running stream found.
#[derive(Debug, PartialEq, Eq)]
pub enum HealthStep {
    /// Still running.
    Unchanged,
    /// The process ended; reap it in the background.
    Reap,
    /// The stream is gone.
    Ended,
    /// The check itself failed.
    Failed(String),
}

/// The decisions of the application controller: device selection, the stream
/// and fault log life cycles and their retry timers. Times are milliseconds on
/// a monotonic clock that the caller reads; background work is flagged here and
/// carried out by the caller.
pub struct ControllerCore {
    pub devices: Vec<DeviceLogDevice>,
    pub selected_device: usize,
    pub active_stream: Option<String>,
    pub fault_result: Option<DeviceFaultLogFetchResult>,
    pub selected_fault: usize,
    pub connection_state: ConnectionState,
    pub desired_stream: DesiredStream,
    pub stream_state: StreamState,
    pub device_refresh_running: bool,
    pub next_device_refresh_at: Option<u64>,
    pub start_retry_device: Option<String>,
    pub consecutive_start_failures: usize,
    pub start_retry_at: Option<u64>,
    pub fault_state: FaultLogState,
    pub fault_refresh_running: bool,
    pub fault_refresh_device_id: Option<String>,
    pub stream_stop_running: bool,
    pub stopping_stream: Option<String>,
    pub stream_reap_running: bool,
}

/// `a` and `b` agree on the devices, the selection, the connection, the fault
/// log, discovery and what the user asked for.
pub open spec fn same_outside_stream(a: ControllerCore, b: ControllerCore) -> bool {
    &&& a.devices@ == b.devices@
    &&& a.selected_device == b.selected_device
    &&& a.connection_state == b.connection_state
    &&& a.fault_result == b.fault_result
    &&& a.selected_fault == b.selected_fault
    &&& a.fault_state == b.fault_state
    &&& a.fault_refresh_running == b.fault_refresh_running
    &&& a.fault_refresh_device_id == b.fault_refresh_device_id
    &&& a.device_refresh_running == b.device_refresh_running
    &&& a.next_device_refresh_at == b.next_device_refresh_at
    &&& a.desired_stream == b.desired_stream
}

/// `a` and `b` agree on the start retry: its device, count and time.
pub open spec fn same_retry(a: ControllerCore, b: ControllerCore) -> bool {
    &&& a.start_retry_device == b.start_retry_device
    &&& a.consecutive_start_failures == b.consecutive_start_failures
    &&& a.start_retry_at == b.start_retry_at
}

pub open spec fn opt_view(o: Option<String>) -> Option<Seq<char>> {
    match o {
        Some(s) => Some(s@),
        None => None,
    }
}

fn copy_opt(o: &Option<String>) -> (r: Option<String>)
    ensures
        opt_view(r) == opt_view(*o),
{
    match o {
        Some(s) => Some(s.clone()),
        None => None,
    }
}

impl ControllerCore {
    /// The selected device's id, when one is selected.
    pub open spec fn selected_id(&self) -> Option<Seq<char>> {
        if self.selected_device < self.devices@.len() {
            Some(self.devices@[self.selected_device as int].id@)
        } else {
            None
        }
    }

    pub open spec fn selected_is_online(&self) -> bool {
        self.selected_device < self.devices@.len() && is_online(
            self.devices@[self.selected_device as int],
        )
    }

    /// A controller for `devices`, with no stream and nothing in the background.
    pub fn new(devices: Vec<DeviceLogDevice>) -> (r: Self)
        ensures
            r.devices@ == devices@,
            (r.connection_state, r.selected_device as int) == initial_selection_spec(devices@),
            r.active_stream is None,
            r.fault_result is None,
            r.selected_fault == 0,
            r.desired_stream == DesiredStream::Stopped,
            r.stream_state == StreamState::Stopped,
            !r.device_refresh_running,
            r.next_device_refresh_at is None,
            r.start_retry_device is None,
            r.consecutive_start_failures == 0,
            r.start_retry_at is None,
            r.fault_state == FaultLogState::Idle,
            !r.fault_refresh_running,
            r.fault_refresh_device_id is None,
            !r.stream_stop_running,
            r.stopping_stream is None,
            !r.stream_reap_running,
    {
        let (connection_state, selected_device) = initial_selection(devices.as_slice());
        ControllerCore {
            devices,
            selected_device,
            active_stream: None,
            fault_result: None,
            selected_fault: 0,
            connection_state,
            desired_stream: DesiredStream::Stopped,
            stream_state: StreamState::Stopped,
            device_refresh_running: false,
            next_device_refresh_at: None,
            start_retry_device: None,
            consecutive_start_failures: 0,
            start_retry_at: None,
            fault_state: FaultLogState::Idle,
            fault_refresh_running: false,
            fault_refresh_device_id: None,
            stream_stop_running: false,
            stopping_stream: None,
            stream_reap_running: false,
        }
    }

    /// The selected device, if any.
    pub fn selected_device(&self) -> (r: Option<&DeviceLogDevice>)
        ensures
            match r {
                Some(d) => self.selected_device < self.devices@.len() && *d
                    == self.devices@[self.selected_device as int],
                None => self.selected_device >= self.devices@.len(),
            },
    {
        if self.selected_device < self.devices.len() {
            Some(&self.devices[self.selected_device])
        } else {
            None
        }
    }

    fn selected_online(&self) -> (r: bool)
        ensures
            r == self.selected_is_online(),
    {
        match self.selected_device() {
            Some(d) => is_online_exec(d),
            None => false,
        }
    }

    pub fn is_streaming(&self) -> (r: bool)
        ensures
            r == self.active_stream is Some,
    {
        self.active_stream.is_some()
    }

    pub fn stream_is_live(&self) -> (r: bool)
        ensures
            r == self.stream_state is Streaming,
    {
        match self.stream_state {
            StreamState::Streaming => true,
            _ => false,
        }
    }

    pub fn pending_stream_action(&self) -> (r: Option<StreamAction>)
        ensures
            r == pending_stream_action_spec(self.desired_stream, self.stream_state),
    {
        pending_stream_action(self.desired_stream, &self.stream_state)
    }

    /// Asks for a running stream; with no device online and no discovery under
    /// way or planned, schedules one.
    pub fn request_stream_running(&mut self, now: u64)
        requires
            now + NO_DEVICE_REFRESH_MILLIS <= u64::MAX,
        ensures
            final(self).desired_stream == DesiredStream::Running,
            final(self).next_device_refresh_at == (if online_count(old(self).devices@) == 0
                && !old(self).device_refresh_running && old(self).next_device_refresh_at is None {
                Some((now + NO_DEVICE_REFRESH_MILLIS) as u64)
            } else {
                old(self).next_device_refresh_at
            }),
            final(self).devices@ == old(self).devices@,
            final(self).selected_device == old(self).selected_device,
            final(self).stream_state == old(self).stream_state,
            final(self).start_retry_at == old(self).start_retry_at,
            final(self).active_stream == old(self).active_stream,
    {
        self.desired_stream = DesiredStream::Running;
        let (count, _) = scan_online(self.devices.as_slice());
        if count == 0 && !self.device_refresh_running && self.next_device_refresh_at.is_none() {
            self.next_device_refresh_at = Some(now + NO_DEVICE_REFRESH_MILLIS);
        }
    }

    /// Asks for no stream: drops the discovery timer and the start retry.
    pub fn request_stream_stopped(&mut self)
        ensures
            final(self).desired_stream == DesiredStream::Stopped,
            final(self).next_device_refresh_at is None,
            final(self).start_retry_device is None,
            final(self).consecutive_start_failures == 0,
            final(self).start_retry_at is None,
            final(self).devices@ == old(self).devices@,
            final(self).selected_device == old(self).selected_device,
            final(self).stream_state == old(self).stream_state,
            final(self).active_stream == old(self).active_stream,
    {
        self.desired_stream = DesiredStream::Stopped;
        self.next_device_refresh_at = None;
        self.clear_start_retry();
    }

    /// Flips what the user asked for.
    pub fn toggle_desired_stream(&mut self, now: u64)
        requires
            now + NO_DEVICE_REFRESH_MILLIS <= u64::MAX,
        ensures
            final(self).desired_stream == (match old(self).desired_stream {
                DesiredStream::Running => DesiredStream::Stopped,
                DesiredStream::Stopped => DesiredStream::Running,
            }),
            final(self).devices@ == old(self).devices@,
            final(self).selected_device == old(self).selected_device,
            final(self).stream_state == old(self).stream_state,
            final(self).active_stream == old(self).active_stream,
    {
        match self.desired_stream {
            DesiredStream::Running => self.request_stream_stopped(),
            DesiredStream::Stopped => self.request_stream_running(now),
        }
    }

    pub open spec fn reconcile_spec(&self, now: u64) -> ReconcileStep {
        let idle_jobs = !self.stream_stop_running && !self.stream_reap_running;
        if self.desired_stream == DesiredStream::Stopped {
            if self.active_stream is Some && idle_jobs {
                ReconcileStep::Cleanup(true)
            } else {
                ReconcileStep::Wait
            }
        } else if (self.stream_state matches StreamState::Error { active, .. } && active)
            && idle_jobs {
            ReconcileStep::Cleanup(false)
        } else if !self.selected_is_online() || self.active_stream is Some
            || self.device_refresh_running || !idle_jobs || (self.start_retry_at matches Some(
            at,
        ) && now < at) {
            ReconcileStep::Wait
        } else {
            ReconcileStep::Start
        }
    }

    /// What bringing the stream in line with the user's intent calls for now.
    pub fn reconcile_step(&self, now: u64) -> (r: ReconcileStep)
        ensures
            r == self.reconcile_spec(now),
    {
        let idle_jobs = !self.stream_stop_running && !self.stream_reap_running;
        if self.desired_stream == DesiredStream::Stopped {
            if self.active_stream.is_some() && idle_jobs {
                return ReconcileStep::Cleanup(true);
            }
            return ReconcileStep::Wait;
        }
        let active_error = match self.stream_state {
            StreamState::Error { active, .. } => active,
            _ => false,
        };
        if active_error && idle_jobs {
            return ReconcileStep::Cleanup(false);
        }
        let retry_pending = match self.start_retry_at {
            Some(at) => now < at,
            None => false,
        };
        if !self.selected_online() || self.active_stream.is_some() || self.device_refresh_running
            || !idle_jobs || retry_pending {
            return ReconcileStep::Wait;
        }
        ReconcileStep::Start
    }

    /// The first half of a stream start: refuses without an online selected
    /// device, and otherwise names the device to launch on.
    pub fn begin_start(&mut self) -> (r: StartStep)
        ensures
            old(self).active_stream is Some ==> r == StartStep::AlreadyStreaming && *final(self)
                == *old(self),
            old(self).active_stream is None ==> match r {
                StartStep::AlreadyStreaming => false,
                StartStep::Refused(message) => {
                    &&& !old(self).selected_is_online()
                    &&& message@ == (if old(self).selected_device < old(self).devices@.len() {
                        "Device "@ + old(self).devices@[old(self).selected_device as int].id@
                            + " is "@ + old(self).devices@[old(self).selected_device as int].status@
                    } else {
                        connection_message(old(self).connection_state)
                    })
                    &&& final(self).stream_state == (StreamState::Error {
                        message: message,
                        active: false,
                    })
                },
                StartStep::Launch(id) => {
                    &&& old(self).selected_is_online()
                    &&& old(self).selected_id() == Some(id@)
                    &&& final(self).stream_state == StreamState::Starting
                },
            },
            same_outside_stream(*old(self), *final(self)),
            same_retry(*old(self), *final(self)),
            final(self).active_stream == old(self).active_stream,
            final(self).stream_stop_running == old(self).stream_stop_running,
            final(self).stopping_stream == old(self).stopping_stream,
            final(self).stream_reap_running == old(self).stream_reap_running,
    {
        if self.active_stream.is_some() {
            return StartStep::AlreadyStreaming;
        }
        self.stream_state = StreamState::Starting;
        if self.selected_device >= self.devices.len() {
            let message = string_from(self.connection_state.message());
            self.stream_state = StreamState::Error { message: message.clone(), active: false };
            return StartStep::Refused(message);
        }
        let d = &self.devices[self.selected_device];
        if !is_online_exec(d) {
            let mut message = string_from("Device ");
            crate::text::push_str(&mut message, d.id.as_str());
            crate::text::push_str(&mut message, " is ");
            crate::text::push_str(&mut message, d.status.as_str());
            self.stream_state = StreamState::Error { message: message.clone(), active: false };
            return StartStep::Refused(message);
        }
        StartStep::Launch(d.id.clone())
    }

    /// A launch on `device_id` failed with `error`: the failure counts toward the
    /// retry wait, and the stream shows the error.
    pub fn start_failed(&mut self, device_id: &str, error: String, now: u64)
        requires
            now + 5000 <= u64::MAX,
        ensures
            final(self).stream_state == (StreamState::Error { message: error, active: false }),
            opt_view(final(self).start_retry_device) == Some(device_id@),
            final(self).consecutive_start_failures == (if opt_view(old(self).start_retry_device)
                == Some(device_id@) {
                if old(self).consecutive_start_failures == usize::MAX {
                    usize::MAX
                } else {
                    (old(self).consecutive_start_failures + 1) as usize
                }
            } else {
                1
            }),
            final(self).start_retry_at == Some(
                (now + retry_delay_spec(final(self).consecutive_start_failures as int)) as u64,
            ),
            same_outside_stream(*old(self), *final(self)),
            final(self).active_stream == old(self).active_stream,
            final(self).stream_stop_running == old(self).stream_stop_running,
            final(self).stopping_stream == old(self).stopping_stream,
            final(self).stream_reap_running == old(self).stream_reap_running,
    {
        self.record_start_failure(device_id, now);
        self.stream_state = StreamState::Error { message: error, active: false };
    }

    fn record_start_failure(&mut self, device_id: &str, now: u64)
        requires
            now + 5000 <= u64::MAX,
        ensures
            opt_view(final(self).start_retry_device) == Some(device_id@),
            final(self).consecutive_start_failures == (if opt_view(old(self).start_retry_device)
                == Some(device_id@) {
                if old(self).consecutive_start_failures == usize::MAX {
                    usize::MAX
                } else {
                    (old(self).consecutive_start_failures + 1) as usize
                }
            } else {
                1
            }),
            final(self).start_retry_at == Some(
                (now + retry_delay_spec(final(self).consecutive_start_failures as int)) as u64,
            ),
            same_outside_stream(*old(self), *final(self)),
            final(self).active_stream == old(self).active_stream,
            final(self).stream_state == old(self).stream_state,
            final(self).stream_stop_running == old(self).stream_stop_running,
            final(self).stopping_stream == old(self).stopping_stream,
            final(self).stream_reap_running == old(self).stream_reap_running,
    {
        let same = match &self.start_retry_device {
            Some(d) => str_eq(d.as_str(), device_id),
            None => false,
        };
        if same {
            self.consecutive_start_failures = self.consecutive_start_failures.saturating_add(1);
        } else {
            self.start_retry_device = Some(string_from(device_id));
            self.consecutive_start_failures = 1;
        }
        let delay = stream_start_retry_delay(self.consecutive_start_failures);
        self.start_retry_at = Some(now + delay);
    }

    fn clear_start_retry(&mut self)
        ensures
            final(self).start_retry_device is None,
            final(self).consecutive_start_failures == 0,
            final(self).start_retry_at is None,
            final(self).devices@ == old(self).devices@,
            final(self).selected_device == old(self).selected_device,
            final(self).active_stream == old(self).active_stream,
            final(self).desired_stream == old(self).desired_stream,
            final(self).stream_state == old(self).stream_state,
            final(self).next_device_refresh_at == old(self).next_device_refresh_at,
            final(self).stream_stop_running == old(self).stream_stop_running,
            final(self).stream_reap_running == old(self).stream_reap_running,
            final(self).device_refresh_running == old(self).device_refresh_running,
            final(self).stopping_stream == old(self).stopping_stream,
            same_outside_stream(*old(self), *final(self)),
    {
        self.start_retry_device = None;
        self.consecutive_start_failures = 0;
        self.start_retry_at = None;
    }

    /// The stream `stream_id` launched: the retry and discovery timers go, and
    /// the stream is live.
    pub fn start_succeeded(&mut self, stream_id: String)
        ensures
            final(self).active_stream == Some(stream_id),
            final(self).stream_state == StreamState::Streaming,
            final(self).connection_state == ConnectionState::Ready,
            final(self).start_retry_device is None,
            final(self).consecutive_start_failures == 0,
            final(self).start_retry_at is None,
            final(self).next_device_refresh_at is None,
            same_outside_stream(
                ControllerCore {
                    connection_state: ConnectionState::Ready,
                    next_device_refresh_at: None,
                    ..*old(self)
                },
                *final(self),
            ),
            final(self).stream_stop_running == old(self).stream_stop_running,
            final(self).stopping_stream == old(self).stopping_stream,
            final(self).stream_reap_running == old(self).stream_reap_running,
    {
        self.clear_start_retry();
        self.next_device_refresh_at = None;
        self.connection_state = ConnectionState::Ready;
        self.active_stream = Some(stream_id);
        self.stream_state = StreamState::Streaming;
    }

    /// Begins stopping the stream in the background and names the stream to
    /// stop; `preserve_tail` keeps its lines flowing until the stop completes.
    pub fn request_stream_cleanup(&mut self, preserve_tail: bool) -> (r: Option<String>)
        ensures
            old(self).stream_stop_running || old(self).stream_reap_running ==> {
                &&& r is None
                &&& final(self).active_stream == (if preserve_tail {
                    old(self).active_stream
                } else {
                    None
                })
                &&& final(self).stream_state == old(self).stream_state
                &&& final(self).stream_stop_running == old(self).stream_stop_running
            },
            !old(self).stream_stop_running && !old(self).stream_reap_running ==> match old(self).active_stream {
                None => r is None && final(self).stream_state == StreamState::Stopped
                    && !final(self).stream_stop_running && final(self).active_stream is None,
                Some(id) => {
                    &&& r == Some(id)
                    &&& final(self).stopping_stream == Some(id)
                    &&& final(self).stream_stop_running
                    &&& final(self).stream_state == StreamState::Stopping
                    &&& final(self).active_stream == (if preserve_tail {
                        Some(id)
                    } else {
                        None
                    })
                },
            },
            same_outside_stream(*old(self), *final(self)),
            same_retry(*old(self), *final(self)),
            final(self).stream_reap_running == old(self).stream_reap_running,
            !(!old(self).stream_stop_running && !old(self).stream_reap_running && old(self).active_stream is Some)
                ==> final(self).stopping_stream == old(self).stopping_stream,
    {
        if self.stream_stop_running || self.stream_reap_running {
            if !preserve_tail {
                self.active_stream = None;
            }
            return None;
        }
        let id = match &self.active_stream {
            Some(id) => id.clone(),
            None => {
                self.stream_state = StreamState::Stopped;
                return None;
            },
        };
        self.stopping_stream = Some(id.clone());
        self.stream_stop_running = true;
        if !preserve_tail {
            self.active_stream = None;
        }
        self.stream_state = StreamState::Stopping;
        Some(id)
    }

    /// The first half of a stop that the caller waits for: refused while a
    /// background stop runs; otherwise names the stream to stop, if any.
    pub fn begin_stop_now(&mut self, preserve_tail: bool) -> (r: Result<Option<String>, String>)
        ensures
            old(self).stream_stop_running ==> (r matches Err(e) && e@
                == "Stream stop is already running"@) && *final(self) == *old(self),
            !old(self).stream_stop_running ==> match old(self).active_stream {
                None => r == Ok::<Option<String>, String>(None) && final(self).stream_state
                    == StreamState::Stopped && final(self).active_stream is None,
                Some(id) => {
                    &&& r == Ok::<Option<String>, String>(Some(id))
                    &&& final(self).stream_state == StreamState::Stopping
                    &&& final(self).active_stream == (if preserve_tail {
                        Some(id)
                    } else {
                        None
                    })
                },
            },
            same_outside_stream(*old(self), *final(self)),
            same_retry(*old(self), *final(self)),
            final(self).stream_stop_running == old(self).stream_stop_running,
            final(self).stopping_stream == old(self).stopping_stream,
            final(self).stream_reap_running == old(self).stream_reap_running,
    {
        if self.stream_stop_running {
            return Err(string_from("Stream stop is already running"));
        }
        let id = match &self.active_stream {
            Some(id) => id.clone(),
            None => {
                self.stream_state = StreamState::Stopped;
                return Ok(None);
            },
        };
        self.stream_state = StreamState::Stopping;
        if !preserve_tail {
            self.active_stream = None;
        }
        Ok(Some(id))
    }

    /// A background stop finished: names the stream it stopped (empty when
    /// unknown).
    pub fn take_stopping_stream(&mut self) -> (r: String)
        ensures
            r@ == match old(self).stopping_stream {
                Some(id) => id@,
                None => Seq::empty(),
            },
            final(self).stopping_stream is None,
            !final(self).stream_stop_running,
            final(self).active_stream == old(self).active_stream,
            final(self).stream_state == old(self).stream_state,
            final(self).stream_reap_running == old(self).stream_reap_running,
            same_outside_stream(*old(self), *final(self)),
            same_retry(*old(self), *final(self)),
    {
        self.stream_stop_running = false;
        match self.stopping_stream.take() {
            Some(id) => id,
            None => String::new(),
        }
    }

    /// The stop of `stream_id` ended with `result`; `registered` says whether the
    /// stream runtime still holds that stream.
    pub fn apply_stop_result(&mut self, stream_id: &str, registered: bool, result: Result<
        (),
        String,
    >) -> (r: Result<(), String>)
        ensures
            ({
                let active = stream_id@.len() > 0 && registered;
                &&& opt_view(final(self).active_stream) == (if active && old(self).active_stream is None {
                    Some(stream_id@)
                } else if !active && opt_view(old(self).active_stream) == Some(stream_id@) {
                    None
                } else {
                    opt_view(old(self).active_stream)
                })
                &&& match result {
                    Ok(()) => r is Ok && final(self).stream_state == StreamState::Stopped,
                    Err(e) => r == Err::<(), String>(e) && final(self).stream_state == (
                    StreamState::Error { message: e, active: active }),
                }
            }),
            same_outside_stream(*old(self), *final(self)),
            same_retry(*old(self), *final(self)),
            final(self).stream_stop_running == old(self).stream_stop_running,
            final(self).stopping_stream == old(self).stopping_stream,
            final(self).stream_reap_running == old(self).stream_reap_running,
    {
        let active = !stream_id.is_empty() && registered;
        let matches_active = match &self.active_stream {
            Some(id) => str_eq(id.as_str(), stream_id),
            None => false,
        };
        if active && self.active_stream.is_none() {
            self.active_stream = Some(string_from(stream_id));
        } else if !active && matches_active {
            self.active_stream = None;
        }
        match result {
            Ok(()) => {
                self.stream_state = StreamState::Stopped;
                Ok(())
            },
            Err(error) => {
                self.stream_state = StreamState::Error { message: error.clone(), active };
                Err(error)
            },
        }
    }
}


/// Whether `ds` lists an online device with id `id`.
pub open spec fn online_with_id(ds: Seq<DeviceLogDevice>, id: Seq<char>) -> bool {
    exists|k: int| 0 <= k < ds.len() && ds[k].id@ == id && is_online(ds[k])
}

/// Where the selection goes when `ds` replaces the device list and `id` was
/// selected: while `ds` lists that id online, the first device with that id;
/// otherwise the single online device, or else the first device with that id
/// (none when it is gone).
pub open spec fn next_selection_spec(ds: Seq<DeviceLogDevice>, id: Option<Seq<char>>) -> int {
    let kept = match id {
        Some(i) => position_from(ds, i, 0),
        None => ds.len() as int,
    };
    let still_online = match id {
        Some(i) => online_with_id(ds, i),
        None => false,
    };
    if still_online {
        kept
    } else if online_count(ds) == 1 {
        first_online_from(ds, 0)
    } else {
        kept
    }
}

/// Whether `devices` lists an online device with id `id`.
fn has_online_id(devices: &[DeviceLogDevice], id: &str) -> (r: bool)
    ensures
        r == online_with_id(devices@, id@),
{
    let mut i: usize = 0;
    while i < devices.len()
        invariant
            i <= devices.len(),
            forall|k: int| 0 <= k < i ==> !(devices@[k].id@ == id@ && is_online(#[trigger] devices@[k])),
        decreases devices.len() - i,
    {
        if str_eq(devices[i].id.as_str(), id) && is_online_exec(&devices[i]) {
            assert(devices@[i as int].id@ == id@ && is_online(devices@[i as int]));
            return true;
        }
        i += 1;
    }
    false
}

/// The connection state for a device list and a selection in it.
pub open spec fn connection_for(ds: Seq<DeviceLogDevice>, selected: int) -> ConnectionState {
    if online_count(ds) == 0 {
        ConnectionState::NoDevices
    } else if 0 <= selected < ds.len() && is_online(ds[selected]) {
        ConnectionState::Ready
    } else {
        ConnectionState::SelectionRequired
    }
}

proof fn lemma_position_bounds(ds: Seq<DeviceLogDevice>, id: Seq<char>, i: int)
    requires
        0 <= i <= ds.len(),
    ensures
        i <= position_from(ds, id, i) <= ds.len(),
        position_from(ds, id, i) < ds.len() ==> ds[position_from(ds, id, i)].id@ == id,
    decreases ds.len() - i,
{
    if i < ds.len() {
        lemma_position_bounds(ds, id, i + 1);
    }
}

proof fn lemma_first_online_bounds(ds: Seq<DeviceLogDevice>, i: int)
    requires
        0 <= i <= ds.len(),
    ensures
        i <= first_online_from(ds, i) <= ds.len(),
        first_online_from(ds, i) < ds.len() ==> is_online(ds[first_online_from(ds, i)]),
    decreases ds.len() - i,
{
    if i < ds.len() {
        lemma_first_online_bounds(ds, i + 1);
    }
}

proof fn lemma_position_upto(ds: Seq<DeviceLogDevice>, id: Seq<char>, i: int, k: int)
    requires
        0 <= i <= k < ds.len(),
        ds[k].id@ == id,
    ensures
        position_from(ds, id, i) <= k,
    decreases k - i,
{
    if i < k && ds[i].id@ != id {
        lemma_position_upto(ds, id, i + 1, k);
    }
}

impl ControllerCore {
    /// A stream runs and the newly listed `devices` hold no online device with
    /// the selected device's id.
    pub open spec fn stop_required(&self, devices: Seq<DeviceLogDevice>) -> bool {
        self.active_stream is Some && !(self.selected_id() matches Some(id) && online_with_id(
            devices,
            id,
        ))
    }

    /// Whether a newly listed set of devices takes the selected, streaming
    /// device away, so that the stream has to stop first.
    pub fn discovery_requires_stop(&self, devices: &[DeviceLogDevice]) -> (r: bool)
        ensures
            r == self.stop_required(devices@),
    {
        if self.active_stream.is_none() {
            return false;
        }
        match self.selected_device() {
            Some(d) => !has_online_id(devices, d.id.as_str()),
            None => true,
        }
    }

    /// Takes a newly listed set of devices: keeps or moves the selection
    /// (`next_selection_spec`), forgets the start retry and fault log of a
    /// device that is no longer the target, and sets the connection state.
    pub fn adopt_devices(&mut self, devices: Vec<DeviceLogDevice>)
        ensures
            final(self).devices@ == devices@,
            final(self).selected_device as int == next_selection_spec(
                devices@,
                old(self).selected_id(),
            ),
            final(self).connection_state == connection_for(
                devices@,
                final(self).selected_device as int,
            ),
            ({
                let changed = old(self).selected_id() != final(self).selected_id();
                &&& changed ==> final(self).fault_result is None && final(self).selected_fault
                    == 0 && final(self).fault_state == FaultLogState::Idle
                    && final(self).start_retry_at is None && final(self).start_retry_device is None
                    && final(self).consecutive_start_failures == 0
                &&& !changed ==> final(self).fault_result == old(self).fault_result
                    && final(self).selected_fault == old(self).selected_fault
                    && final(self).fault_state == old(self).fault_state
                    && final(self).start_retry_at == old(self).start_retry_at
            }),
            final(self).active_stream == old(self).active_stream,
            final(self).stream_state == old(self).stream_state,
            final(self).desired_stream == old(self).desired_stream,
            final(self).stream_stop_running == old(self).stream_stop_running,
            final(self).stream_reap_running == old(self).stream_reap_running,
            final(self).device_refresh_running == old(self).device_refresh_running,
            final(self).stopping_stream == old(self).stopping_stream,
    {
        let ghost old_id = self.selected_id();
        let selected_id = match self.selected_device() {
            Some(d) => Some(d.id.clone()),
            None => None,
        };
        let kept = match &selected_id {
            Some(id) => position_of(devices.as_slice(), id.as_str()),
            None => devices.len(),
        };
        proof {
            match old_id {
                Some(i) => lemma_position_bounds(devices@, i, 0),
                None => {},
            }
            lemma_first_online_bounds(devices@, 0);
        }
        let (count, first) = scan_online(devices.as_slice());
        let still_online = match &selected_id {
            Some(id) => has_online_id(devices.as_slice(), id.as_str()),
            None => false,
        };
        proof {
            if still_online {
                let i = old_id->Some_0;
                let k = choose|k: int| 0 <= k < devices@.len() && devices@[k].id@ == i && is_online(devices@[k]);
                lemma_position_upto(devices@, i, 0, k);
            }
        }
        let next = if still_online {
            kept
        } else if count == 1 {
            first
        } else {
            kept
        };
        let changed = match &selected_id {
            Some(id) => !(next < devices.len() && str_eq(devices[next].id.as_str(), id.as_str())),
            None => next < devices.len(),
        };
        self.selected_device = next;
        self.devices = devices;
        assert(changed == (old_id != self.selected_id()));
        if changed {
            self.clear_start_retry();
            self.fault_result = None;
            self.selected_fault = 0;
            self.fault_state = FaultLogState::Idle;
        }
        let online = self.selected_online();
        self.connection_state = if count == 0 {
            ConnectionState::NoDevices
        } else if online {
            ConnectionState::Ready
        } else {
            ConnectionState::SelectionRequired
        };
    }

    /// Takes a device list that discovery found in the background: a stream
    /// whose device went away is stopped in the background first (the caller
    /// starts the stop of the returned stream), then the list is adopted.
    pub fn apply_discovered_devices(&mut self, devices: Vec<DeviceLogDevice>) -> (r: Option<
        String,
    >)
        ensures
            final(self).devices@ == devices@,
            final(self).selected_device as int == next_selection_spec(
                devices@,
                old(self).selected_id(),
            ),
            final(self).connection_state == connection_for(
                devices@,
                final(self).selected_device as int,
            ),
            r is Some <==> (old(self).stop_required(devices@) && !old(self).stream_stop_running
                && !old(self).stream_reap_running),
            r is Some ==> {
                &&& r == old(self).active_stream
                &&& final(self).stream_stop_running
                &&& final(self).stopping_stream == old(self).active_stream
                &&& final(self).stream_state == StreamState::Stopping
                &&& final(self).active_stream is None
            },
            r is None ==> {
                &&& final(self).stream_stop_running == old(self).stream_stop_running
                &&& final(self).stopping_stream == old(self).stopping_stream
                &&& final(self).stream_state == old(self).stream_state
                &&& final(self).active_stream == (if old(self).stop_required(devices@) {
                    None
                } else {
                    old(self).active_stream
                })
            },
            ({
                let changed = old(self).selected_id() != final(self).selected_id();
                &&& changed ==> final(self).fault_result is None && final(self).selected_fault
                    == 0 && final(self).fault_state == FaultLogState::Idle
                    && final(self).start_retry_at is None && final(self).start_retry_device is None
                    && final(self).consecutive_start_failures == 0
                &&& !changed ==> final(self).fault_result == old(self).fault_result
                    && final(self).selected_fault == old(self).selected_fault
                    && final(self).fault_state == old(self).fault_state
                    && final(self).start_retry_at == old(self).start_retry_at
            }),
            final(self).stream_reap_running == old(self).stream_reap_running,
            final(self).device_refresh_running == old(self).device_refresh_running,
            final(self).desired_stream == old(self).desired_stream,
    {
        let stop = self.discovery_requires_stop(devices.as_slice());
        let r = if stop {
            self.request_stream_cleanup(false)
        } else {
            None
        };
        self.adopt_devices(devices);
        r
    }

    /// A background discovery ended: on success its devices are adopted (see
    /// `apply_discovered_devices`, whose stream to stop is returned), on failure
    /// the connection shows the error and discovery is planned again.
    pub fn finish_device_refresh(
        &mut self,
        result: Result<Vec<DeviceLogDevice>, String>,
        now: u64,
    ) -> (r: Result<Option<String>, String>)
        requires
            now + NO_DEVICE_REFRESH_MILLIS <= u64::MAX,
        ensures
            !final(self).device_refresh_running,
            final(self).desired_stream == old(self).desired_stream,
            match result {
                Ok(ds) => r is Ok && final(self).devices@ == ds@ && final(self).selected_device
                    as int == next_selection_spec(ds@, old(self).selected_id()),
                Err(e) => {
                    &&& r == Err::<Option<String>, String>(e)
                    &&& final(self).connection_state == ConnectionState::Error(e)
                    &&& final(self).next_device_refresh_at == (if old(self).desired_stream
                        == DesiredStream::Running {
                        if old(self).stream_state is Streaming {
                            None
                        } else {
                            Some((now + NO_DEVICE_REFRESH_MILLIS) as u64)
                        }
                    } else {
                        old(self).next_device_refresh_at
                    })
                    &&& final(self).devices@ == old(self).devices@
                },
            },
    {
        self.device_refresh_running = false;
        match result {
            Ok(devices) => Ok(self.apply_discovered_devices(devices)),
            Err(error) => {
                self.connection_state = ConnectionState::Error(error.clone());
                self.schedule_next_device_refresh(now);
                Err(error)
            },
        }
    }

    /// Plans the next discovery while a stream is wanted and none runs.
    pub fn schedule_next_device_refresh(&mut self, now: u64)
        requires
            now + NO_DEVICE_REFRESH_MILLIS <= u64::MAX,
        ensures
            final(self).next_device_refresh_at == (if old(self).desired_stream
                == DesiredStream::Running && !old(self).device_refresh_running {
                if old(self).stream_state is Streaming {
                    None
                } else {
                    Some((now + NO_DEVICE_REFRESH_MILLIS) as u64)
                }
            } else {
                old(self).next_device_refresh_at
            }),
            final(self).devices@ == old(self).devices@,
            final(self).selected_device == old(self).selected_device,
            final(self).connection_state == old(self).connection_state,
            final(self).device_refresh_running == old(self).device_refresh_running,
            final(self).desired_stream == old(self).desired_stream,
    {
        if self.desired_stream != DesiredStream::Running || self.device_refresh_running {
            return;
        }
        self.next_device_refresh_at = match device_refresh_interval(&self.stream_state) {
            Some(interval) => Some(now + interval),
            None => None,
        };
    }

    /// Starts a discovery unless one runs; returns whether the caller should
    /// launch it.
    pub fn begin_device_refresh(&mut self) -> (r: bool)
        ensures
            r == !old(self).device_refresh_running,
            final(self).device_refresh_running,
            r ==> final(self).next_device_refresh_at is None && final(self).connection_state
                == ConnectionState::Refreshing,
            !r ==> *final(self) == *old(self),
            final(self).devices@ == old(self).devices@,
            final(self).selected_device == old(self).selected_device,
            final(self).desired_stream == old(self).desired_stream,
    {
        if self.device_refresh_running {
            return false;
        }
        self.device_refresh_running = true;
        self.next_device_refresh_at = None;
        self.connection_state = ConnectionState::Refreshing;
        true
    }

    /// Whether the planned discovery is due now; plans one when none is.
    pub fn scheduled_refresh_due(&mut self, now: u64) -> (r: bool)
        requires
            now + NO_DEVICE_REFRESH_MILLIS <= u64::MAX,
        ensures
            r == (old(self).desired_stream == DesiredStream::Running
                && !old(self).device_refresh_running && (old(self).next_device_refresh_at matches Some(
                at,
            ) && now >= at)),
            final(self).device_refresh_running == old(self).device_refresh_running,
            final(self).devices@ == old(self).devices@,
            final(self).selected_device == old(self).selected_device,
            final(self).desired_stream == old(self).desired_stream,
    {
        if self.desired_stream != DesiredStream::Running || self.device_refresh_running {
            return false;
        }
        match self.next_device_refresh_at {
            None => {
                self.schedule_next_device_refresh(now);
                false
            },
            Some(deadline) => now >= deadline,
        }
    }

    /// Selects device `index` (an index past the list selects none). Refused
    /// while a stream runs; the fault log of the old selection is dropped.
    pub fn select_device(&mut self, index: usize) -> (r: Result<(), String>)
        ensures
            old(self).active_stream is Some ==> (r matches Err(e) && e@
                == "Stop HiLog before changing devices"@) && *final(self) == *old(self),
            old(self).active_stream is None ==> r is Ok && *final(self) == selected_at(
                *old(self),
                index,
            ),
    {
        if self.active_stream.is_some() {
            return Err(string_from("Stop HiLog before changing devices"));
        }
        self.selected_device = index;
        let online = self.selected_online();
        let (count, _) = scan_online(self.devices.as_slice());
        self.connection_state = if online {
            ConnectionState::Ready
        } else if count > 0 {
            ConnectionState::SelectionRequired
        } else {
            ConnectionState::NoDevices
        };
        proof {
            if online {
                lemma_online_positive(self.devices@, index as int);
            }
        }
        self.fault_result = None;
        self.selected_fault = 0;
        self.fault_state = FaultLogState::Idle;
        Ok(())
    }

    /// Selects the next device, wrapping to the first.
    pub fn next_device(&mut self) -> (r: Result<(), String>)
        ensures
            old(self).devices@.len() == 0 ==> r is Ok && *final(self) == *old(self),
            old(self).devices@.len() > 0 && old(self).active_stream is None ==> r is Ok
                && *final(self) == selected_at(
                *old(self),
                ((old(self).selected_device as int + 1) % (old(self).devices@.len() as int)) as usize,
            ),
            old(self).devices@.len() > 0 && old(self).active_stream is Some ==> r is Err
                && *final(self) == *old(self),
    {
        let n = self.devices.len();
        if n == 0 {
            return Ok(());
        }
        let index = (self.selected_device % n + 1) % n;
        assert(index as int == (self.selected_device as int + 1) % (n as int)) by (nonlinear_arith)
            requires
                n > 0,
                index as int == ((self.selected_device as int) % (n as int) + 1) % (n as int),
        ;
        self.select_device(index)
    }

    /// Selects the previous device, wrapping to the last.
    pub fn previous_device(&mut self) -> (r: Result<(), String>)
        ensures
            old(self).devices@.len() == 0 ==> r is Ok && *final(self) == *old(self),
            old(self).devices@.len() > 0 && old(self).active_stream is None ==> r is Ok
                && *final(self) == selected_at(
                *old(self),
                (if old(self).selected_device == 0 {
                    old(self).devices@.len() - 1
                } else {
                    old(self).selected_device - 1
                }) as usize,
            ),
            old(self).devices@.len() > 0 && old(self).active_stream is Some ==> r is Err
                && *final(self) == *old(self),
    {
        let n = self.devices.len();
        if n == 0 {
            return Ok(());
        }
        let index = if self.selected_device == 0 {
            n - 1
        } else {
            self.selected_device - 1
        };
        self.select_device(index)
    }
}

/// `c` with device `index` selected: the connection follows the selection and
/// the fault log of the old selection is dropped.
pub open spec fn selected_at(c: ControllerCore, index: usize) -> ControllerCore {
    ControllerCore {
        selected_device: index,
        connection_state: connection_for(c.devices@, index as int),
        fault_result: None,
        selected_fault: 0,
        fault_state: FaultLogState::Idle,
        ..c
    }
}

proof fn lemma_online_positive(ds: Seq<DeviceLogDevice>, k: int)
    requires
        0 <= k < ds.len(),
        is_online(ds[k]),
    ensures
        online_count(ds) > 0,
    decreases ds.len(),
{
    if k < ds.len() - 1 {
        lemma_online_positive(ds.drop_last(), k);
    }
}


/// The fault log state that a fetch result leads to.
pub open spec fn fault_state_for(result: DeviceFaultLogFetchResult) -> FaultLogState {
    match result.status {
        DeviceFaultLogStatus::Ready | DeviceFaultLogStatus::Empty => FaultLogState::Ready,
        _ => FaultLogState::Error(result.message),
    }
}

impl ControllerCore {
    /// How many fault log entries are loaded.
    pub open spec fn fault_count(&self) -> nat {
        match self.fault_result {
            Some(result) => result.entries@.len(),
            None => 0,
        }
    }

    /// Shows `result`, selecting its first entry.
    pub fn apply_fault_result(&mut self, result: DeviceFaultLogFetchResult)
        ensures
            *final(self) == (ControllerCore {
                selected_fault: 0,
                fault_state: fault_state_for(result),
                fault_result: Some(result),
                ..*old(self)
            }),
    {
        self.selected_fault = 0;
        self.fault_state = match result.status {
            DeviceFaultLogStatus::Ready | DeviceFaultLogStatus::Empty => FaultLogState::Ready,
            _ => FaultLogState::Error(result.message.clone()),
        };
        self.fault_result = Some(result);
    }

    /// A fault log query failed with `error`.
    pub fn fault_refresh_failed(&mut self, error: String)
        ensures
            final(self).fault_state == FaultLogState::Error(error),
            final(self).fault_result == old(self).fault_result,
            final(self).selected_fault == old(self).selected_fault,
            final(self).devices@ == old(self).devices@,
            final(self).selected_device == old(self).selected_device,
    {
        self.fault_state = FaultLogState::Error(error);
    }

    /// Starts a background fault log query for the selected device; returns the
    /// device to query, nothing when one already runs, or why it cannot start.
    pub fn begin_fault_refresh(&mut self) -> (r: Result<Option<String>, String>)
        ensures
            old(self).fault_refresh_running ==> r == Ok::<Option<String>, String>(None) && *final(self) == *old(self),
            !old(self).fault_refresh_running ==> match r {
                Ok(Some(id)) => {
                    &&& old(self).selected_id() == Some(id@)
                    &&& final(self).fault_refresh_running
                    &&& opt_view(final(self).fault_refresh_device_id) == Some(id@)
                    &&& final(self).fault_state == FaultLogState::Refreshing
                },
                Ok(None) => false,
                Err(e) => old(self).selected_id() is None && e@ == connection_message(
                    old(self).connection_state,
                ) && *final(self) == *old(self),
            },
            final(self).devices@ == old(self).devices@,
            final(self).selected_device == old(self).selected_device,
            final(self).fault_result == old(self).fault_result,
    {
        if self.fault_refresh_running {
            return Ok(None);
        }
        let id = match self.selected_device() {
            Some(d) => d.id.clone(),
            None => return Err(string_from(self.connection_state.message())),
        };
        self.fault_refresh_running = true;
        self.fault_refresh_device_id = Some(id.clone());
        self.fault_state = FaultLogState::Refreshing;
        Ok(Some(id))
    }

    /// A background fault log query ended with `result`. It is shown only when
    /// the device it asked about is still the selected one; returns whether
    /// anything changed, and the query's error.
    pub fn finish_fault_refresh(&mut self, result: Result<DeviceFaultLogFetchResult, String>) -> (r:
        (bool, Result<(), String>))
        ensures
            !final(self).fault_refresh_running,
            final(self).fault_refresh_device_id is None,
            ({
                let current = opt_view(old(self).fault_refresh_device_id) == old(self).selected_id();
                &&& r.0 == current
                &&& !current ==> r.1 is Ok && final(self).fault_result == old(self).fault_result
                    && final(self).fault_state == old(self).fault_state
                &&& current ==> match result {
                    Ok(fetched) => r.1 is Ok && final(self).fault_result == Some(fetched)
                        && final(self).fault_state == fault_state_for(fetched)
                        && final(self).selected_fault == 0,
                    Err(e) => r.1 == Err::<(), String>(e) && final(self).fault_state
                        == FaultLogState::Error(e) && final(self).fault_result == old(self).fault_result,
                }
            }),
            final(self).devices@ == old(self).devices@,
            final(self).selected_device == old(self).selected_device,
    {
        self.fault_refresh_running = false;
        let requested = self.fault_refresh_device_id.take();
        let current = match (&requested, self.selected_device()) {
            (Some(a), Some(d)) => str_eq(a.as_str(), d.id.as_str()),
            (None, None) => true,
            _ => false,
        };
        if !current {
            return (false, Ok(()));
        }
        match result {
            Ok(fetched) => {
                self.apply_fault_result(fetched);
                (true, Ok(()))
            },
            Err(error) => {
                self.fault_state = FaultLogState::Error(error.clone());
                (true, Err(error))
            },
        }
    }

    /// The selected fault log entry, if any.
    pub fn selected_fault_entry(&self) -> (r: Option<&DeviceFaultLogRawEntry>)
        ensures
            match r {
                Some(e) => self.fault_result matches Some(result) && self.selected_fault
                    < result.entries@.len() && *e == result.entries@[self.selected_fault as int],
                None => self.selected_fault >= self.fault_count(),
            },
    {
        match &self.fault_result {
            Some(result) => if self.selected_fault < result.entries.len() {
                Some(&result.entries[self.selected_fault])
            } else {
                None
            },
            None => None,
        }
    }

    /// Selects the next fault log entry, wrapping to the first.
    pub fn next_fault(&mut self)
        ensures
            final(self).selected_fault as int == (if old(self).fault_count() > 0 {
                (old(self).selected_fault as int + 1) % (old(self).fault_count() as int)
            } else {
                old(self).selected_fault as int
            }),
            final(self).fault_result == old(self).fault_result,
            final(self).fault_state == old(self).fault_state,
    {
        let count = match &self.fault_result {
            Some(result) => result.entries.len(),
            None => 0,
        };
        if count > 0 {
            let index = (self.selected_fault % count + 1) % count;
            assert(index as int == (self.selected_fault as int + 1) % (count as int)) by (nonlinear_arith)
                requires
                    count > 0,
                    index as int == ((self.selected_fault as int) % (count as int) + 1) % (
                    count as int),
            ;
            self.selected_fault = index;
        }
    }

    /// Selects the previous fault log entry, wrapping to the last.
    pub fn previous_fault(&mut self)
        ensures
            final(self).selected_fault as int == (if old(self).fault_count() == 0 {
                old(self).selected_fault as int
            } else if old(self).selected_fault == 0 {
                old(self).fault_count() - 1
            } else {
                old(self).selected_fault - 1
            }),
            final(self).fault_result == old(self).fault_result,
            final(self).fault_state == old(self).fault_state,
    {
        let count = match &self.fault_result {
            Some(result) => result.entries.len(),
            None => 0,
        };
        if count > 0 {
            self.selected_fault = if self.selected_fault == 0 {
                count - 1
            } else {
                self.selected_fault - 1
            };
        }
    }

    /// Whether a batch of lines from stream `stream_id` belongs to the live
    /// session.
    pub fn accepts_batch(&self, stream_id: &str) -> (r: bool)
        ensures
            r == (opt_view(self.active_stream) == Some(stream_id@)),
    {
        match &self.active_stream {
            Some(id) => str_eq(id.as_str(), stream_id),
            None => false,
        }
    }

    /// The stream whose process should be checked for an exit: the live one,
    /// when no stop runs.
    pub fn health_check_target(&self) -> (r: Option<String>)
        ensures
            opt_view(r) == (if !self.stream_stop_running && self.stream_state is Streaming {
                opt_view(self.active_stream)
            } else {
                None
            }),
    {
        if self.stream_stop_running || !self.stream_is_live() {
            return None;
        }
        copy_opt(&self.active_stream)
    }

    /// The process of the live stream was checked: `status` is `Ok(None)` while
    /// it runs, `Ok(Some(code))` once it exited, or the check's error;
    /// `registered` says whether the runtime still holds the stream.
    pub fn apply_finished_status(
        &mut self,
        status: Result<Option<Option<i32>>, String>,
        registered: bool,
    ) -> (r: HealthStep)
        ensures
            match status {
                Ok(None) => r == HealthStep::Unchanged && *final(self) == *old(self),
                Ok(Some(code)) => {
                    &&& r == HealthStep::Reap
                    &&& final(self).stream_reap_running
                    &&& final(self).stream_state == (StreamState::Error {
                        message: final(self).stream_state->message,
                        active: true,
                    })
                    &&& final(self).stream_state->message@ == exit_message_spec(code)
                    &&& final(self).active_stream == old(self).active_stream
                },
                Err(e) => if registered {
                    r == HealthStep::Failed(e) && *final(self) == *old(self)
                } else {
                    &&& r == HealthStep::Ended
                    &&& final(self).active_stream is None
                    &&& final(self).stream_state == (StreamState::Error {
                        message: e,
                        active: false,
                    })
                },
            },
            final(self).devices@ == old(self).devices@,
            final(self).selected_device == old(self).selected_device,
            final(self).desired_stream == old(self).desired_stream,
    {
        match status {
            Ok(None) => HealthStep::Unchanged,
            Ok(Some(code)) => {
                self.stream_reap_running = true;
                self.stream_state = StreamState::Error { message: exit_message(code), active: true };
                HealthStep::Reap
            },
            Err(error) => {
                if registered {
                    HealthStep::Failed(error)
                } else {
                    self.active_stream = None;
                    self.stream_state = StreamState::Error { message: error, active: false };
                    HealthStep::Ended
                }
            },
        }
    }

    /// The reaping of an exited stream ended with `result` (the exit code, or an
    /// error); `registered` says whether the runtime still holds the live stream.
    pub fn finish_reap(&mut self, result: Result<Option<i32>, String>, registered: bool) -> (r:
        Result<bool, String>)
        ensures
            !final(self).stream_reap_running,
            match result {
                Ok(code) => {
                    &&& r == Ok::<bool, String>(true)
                    &&& final(self).active_stream is None
                    &&& final(self).stream_state == (StreamState::Error {
                        message: final(self).stream_state->message,
                        active: false,
                    })
                    &&& final(self).stream_state->message@ == exit_message_spec(code)
                },
                Err(e) => {
                    let active = old(self).active_stream is Some && registered;
                    &&& r == Err::<bool, String>(e)
                    &&& final(self).active_stream == (if active {
                        old(self).active_stream
                    } else {
                        None
                    })
                    &&& final(self).stream_state == (StreamState::Error {
                        message: e,
                        active: active,
                    })
                },
            },
            final(self).devices@ == old(self).devices@,
            final(self).selected_device == old(self).selected_device,
            final(self).desired_stream == old(self).desired_stream,
    {
        self.stream_reap_running = false;
        match result {
            Ok(code) => {
                self.active_stream = None;
                self.stream_state = StreamState::Error { message: exit_message(code), active: false };
                Ok(true)
            },
            Err(error) => {
                let active = self.active_stream.is_some() && registered;
                if !active {
                    self.active_stream = None;
                }
                self.stream_state = StreamState::Error { message: error.clone(), active };
                Err(error)
            },
        }
    }
}


/// The retry wait grows with the number of failed starts in a row, from
/// 500 ms, and never passes 5 s.
pub proof fn law_retry_delay_grows_and_caps(a: int, b: int)
    requires
        a <= b,
    ensures
        retry_delay_spec(a) <= retry_delay_spec(b),
        500 <= retry_delay_spec(a) <= 5000,
{
}

/// The pending stream action always heads where the user asked: never a stop
/// while a stream is wanted, never a start while none is. None is pending once
/// the stream is where the user wants it, and a stop asked for while the
/// stream starts or runs stays queued.
pub proof fn law_pending_action_follows_intent(desired: DesiredStream, state: StreamState)
    ensures
        desired == DesiredStream::Running ==> pending_stream_action_spec(desired, state) != Some(
            StreamAction::Stop,
        ),
        desired == DesiredStream::Stopped ==> pending_stream_action_spec(desired, state) != Some(
            StreamAction::Start,
        ),
        desired == DesiredStream::Running && (state is Starting || state is Streaming)
            ==> pending_stream_action_spec(desired, state) is None,
        desired == DesiredStream::Stopped && (state is Stopped || state is Stopping)
            ==> pending_stream_action_spec(desired, state) is None,
        desired == DesiredStream::Stopped && (state is Starting || state is Streaming)
            ==> pending_stream_action_spec(desired, state) == Some(StreamAction::Stop),
        desired == DesiredStream::Running && state is Stopped ==> pending_stream_action_spec(
            desired,
            state,
        ) == Some(StreamAction::Start),
{
}

proof fn lemma_position_of_unique(ds: Seq<DeviceLogDevice>, id: Seq<char>, k: int, i: int)
    requires
        0 <= i <= k < ds.len(),
        ds[k].id@ == id,
        forall|a: int, b: int| 0 <= a < ds.len() && 0 <= b < ds.len() && ds[a].id@ == ds[b].id@ ==> a == b,
    ensures
        position_from(ds, id, i) == k,
    decreases k - i,
{
    if i < k {
        assert(ds[i].id@ != id);
        lemma_position_of_unique(ds, id, k, i + 1);
    }
}

/// When newly listed devices have distinct ids and the selected device is
/// among them and online, it stays selected.
pub proof fn law_online_selection_is_kept(ds: Seq<DeviceLogDevice>, id: Seq<char>, k: int)
    requires
        0 <= k < ds.len(),
        ds[k].id@ == id,
        is_online(ds[k]),
        forall|a: int, b: int| 0 <= a < ds.len() && 0 <= b < ds.len() && ds[a].id@ == ds[b].id@ ==> a == b,
    ensures
        next_selection_spec(ds, Some(id)) == k,
        connection_for(ds, k) == ConnectionState::Ready,
{
    lemma_position_of_unique(ds, id, k, 0);
    lemma_online_positive(ds, k);
}

/// When the selected device is gone or offline and exactly one device is
/// online, that device is selected and the connection is ready.
pub proof fn law_single_online_device_is_selected(ds: Seq<DeviceLogDevice>, id: Option<Seq<char>>)
    requires
        online_count(ds) == 1,
        !(id matches Some(i) && online_with_id(ds, i)),
    ensures
        0 <= next_selection_spec(ds, id) < ds.len(),
        is_online(ds[next_selection_spec(ds, id)]),
        connection_for(ds, next_selection_spec(ds, id)) == ConnectionState::Ready,
{
    lemma_first_online_bounds(ds, 0);
    if first_online_from(ds, 0) >= ds.len() {
        lemma_no_online(ds, 0);
        lemma_count_zero(ds);
    }
    assert(next_selection_spec(ds, id) == first_online_from(ds, 0));
}

proof fn lemma_no_online(ds: Seq<DeviceLogDevice>, i: int)
    requires
        0 <= i <= ds.len(),
        first_online_from(ds, i) >= ds.len(),
    ensures
        forall|k: int| i <= k < ds.len() ==> !is_online(#[trigger] ds[k]),
    decreases ds.len() - i,
{
    if i < ds.len() {
        lemma_no_online(ds, i + 1);
    }
}

proof fn lemma_count_zero(ds: Seq<DeviceLogDevice>)
    requires
        forall|k: int| 0 <= k < ds.len() ==> !is_online(#[trigger] ds[k]),
    ensures
        online_count(ds) == 0,
    decreases ds.len(),
{
    if ds.len() > 0 {
        assert(!is_online(ds[ds.len() - 1]));
        lemma_count_zero(ds.drop_last());
    }
}

} // verus!
