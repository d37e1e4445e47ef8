use vstd::prelude::*;

verus! {

/// What the user wants the HiLog stream to be.
#[derive(Clone, Copy, Debug, PartialEq, Eq, Structural)]
pub enum DesiredStream {
    Running,
    Stopped,
}

/// A stream action that a controller may carry out.
#[derive(Clone, Copy, Debug, PartialEq, Eq, Structural)]
pub enum StreamAction {
    Start,
    Stop,
}

#[derive(Clone, Debug, PartialEq, Eq)]
pub enum ConnectionState {
    Refreshing,
    Ready,
    SelectionRequired,
    NoDevices,
    Error(String),
}

pub open spec fn connection_message(state: ConnectionState) -> Seq<char> {
    match state {
        ConnectionState::Refreshing => "Refreshing devices"@,
        ConnectionState::Ready => "Devices ready"@,
        ConnectionState::SelectionRequired => "Select an online device"@,
        ConnectionState::NoDevices => "No devices"@,
        ConnectionState::Error(message) => message@,
    }
}

impl ConnectionState {
    /// The status text shown for this connection state.
    pub fn message(&self) -> (r: &str)
        ensures
            r@ == connection_message(*self),
    {
        match self {
            ConnectionState::Refreshing => "Refreshing devices",
            ConnectionState::Ready => "Devices ready",
            ConnectionState::SelectionRequired => "Select an online device",
            ConnectionState::NoDevices => "No devices",
            ConnectionState::Error(message) => message.as_str(),
        }
    }
}

/// Life cycle of the HiLog stream.
#[derive(Clone, Debug, PartialEq, Eq)]
pub enum StreamState {
    Stopped,
    Starting,
    Streaming,
    Stopping,
    Error { message: String, active: bool },
}

pub open spec fn stream_message(state: StreamState) -> Seq<char> {
    match state {
        StreamState::Stopped => "Stopped"@,
        StreamState::Starting => "Starting"@,
        StreamState::Streaming => "Streaming"@,
        StreamState::Stopping => "Stopping"@,
        StreamState::Error { message, .. } => message@,
    }
}

impl StreamState {
    /// The status text shown for this stream state.
    pub fn message(&self) -> (r: &str)
        ensures
            r@ == stream_message(*self),
    {
        match self {
            StreamState::Stopped => "Stopped",
            StreamState::Starting => "Starting",
            StreamState::Streaming => "Streaming",
            StreamState::Stopping => "Stopping",
            StreamState::Error { message, .. } => message.as_str(),
        }
    }

    /// A copy of this state.
    pub fn duplicate(&self) -> (r: StreamState)
        ensures
            r == *self,
    {
        match self {
            StreamState::Stopped => StreamState::Stopped,
            StreamState::Starting => StreamState::Starting,
            StreamState::Streaming => StreamState::Streaming,
            StreamState::Stopping => StreamState::Stopping,
            StreamState::Error { message, active } => StreamState::Error {
                message: message.clone(),
                active: *active,
            },
        }
    }
}

impl ConnectionState {
    /// A copy of this state.
    pub fn duplicate(&self) -> (r: ConnectionState)
        ensures
            r == *self,
    {
        match self {
            ConnectionState::Refreshing => ConnectionState::Refreshing,
            ConnectionState::Ready => ConnectionState::Ready,
            ConnectionState::SelectionRequired => ConnectionState::SelectionRequired,
            ConnectionState::NoDevices => ConnectionState::NoDevices,
            ConnectionState::Error(message) => ConnectionState::Error(message.clone()),
        }
    }
}

/// Loading state of the fault log view.
#[derive(Clone, Debug, PartialEq, Eq)]
pub enum FaultLogState {
    Idle,
    Refreshing,
    Ready,
    Error(String),
}

pub open spec fn fault_message(state: FaultLogState) -> Seq<char> {
    match state {
        FaultLogState::Idle => "Not loaded"@,
        FaultLogState::Refreshing => "Refreshing fault logs"@,
        FaultLogState::Ready => "Fault logs ready"@,
        FaultLogState::Error(message) => message@,
    }
}

impl FaultLogState {
    /// The status text shown for this fault log state.
    pub fn message(&self) -> (r: &str)
        ensures
            r@ == fault_message(*self),
    {
        match self {
            FaultLogState::Idle => "Not loaded",
            FaultLogState::Refreshing => "Refreshing fault logs",
            FaultLogState::Ready => "Fault logs ready",
            FaultLogState::Error(message) => message.as_str(),
        }
    }
}

} // verus!
