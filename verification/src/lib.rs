use vstd::prelude::*;

pub mod action_status;
pub mod app_keys;
pub mod background_job;
pub mod command;
pub mod controller;
pub mod decode;
pub mod devices;
pub mod execution_log;
pub mod fault_log;
pub mod input_view;
pub mod keymap;
pub mod keys;
pub mod log_geometry;
pub mod memory;
pub mod presentation;
pub mod query;
pub mod query_history;
pub mod runtime_state;
pub mod stream;
pub mod stream_intent;
pub mod text;
pub mod text_input;
pub mod viewport;

pub use action_status::ActionStatus;
pub use app_keys::{dispatch_key, KeyAction};
pub use background_job::BackgroundJob;
pub use command::{CommandOutput, CommandPolicy, CommandRunner};
pub use controller::{ControllerCore, HealthStep, ReconcileStep, StartStep};
pub use devices::{DeviceLogDevice, HdcClient};
pub use execution_log::EXECUTION_LOG_MAX_BYTES;
pub use fault_log::{
    DeviceFaultLogExportResult, DeviceFaultLogExporter, DeviceFaultLogFetchResult,
    DeviceFaultLogRawEntry, DeviceFaultLogStatus,
};
pub use keymap::{
    AppCommand, CommandContext, CommandKeymap, NavigationAction, NavigationContext,
    NavigationKeymap,
};
pub use keys::{KeyCode, KeyEvent, KeyModifiers};
pub use memory::{MemoryProbe, RedrawState, MEMORY_BUDGET_BYTES};
pub use presentation::{InputMode, LogLevel, LogTab, OverlayMode, Tone};
pub use query_history::QueryHistory;
pub use runtime_state::{ConnectionState, DesiredStream, FaultLogState, StreamAction, StreamState};
pub use stream::{DeviceLogOutputBatch, DeviceLogStreamExit, DeviceLogStreamSummary, LogBatchSink};
pub use stream_intent::StreamIntent;
pub use text_input::{Clipboard, TextInput, TextInputView};
pub use viewport::{DisplayWindow, QueryRebuildWork, ViewportAnchor};

verus! {

} // verus!
