use vstd::prelude::*;

use crate::runtime_state::{ConnectionState, StreamAction, StreamState};

verus! {

/// The stream action that the user has asked for and that has not been carried out yet.
#[derive(Clone, Copy, Debug, PartialEq, Eq, Structural)]
pub enum PendingIntent {
    Nothing,
    Start,
    Stop,
}

/// Queues one start or stop request until the stream can honour it.
pub struct StreamIntent {
    pending: PendingIntent,
}

/// The stream is starting or running: a toggle means stop.
pub open spec fn should_stop_spec(stream: StreamState) -> bool {
    match stream {
        StreamState::Starting | StreamState::Streaming => true,
        StreamState::Error { active, .. } => active,
        _ => false,
    }
}

/// A stop can be requested now.
pub open spec fn can_request_stop_spec(stream: StreamState) -> bool {
    match stream {
        StreamState::Streaming => true,
        StreamState::Error { active, .. } => active,
        _ => false,
    }
}

/// No stream process is alive.
pub open spec fn is_inactive_spec(stream: StreamState) -> bool {
    match stream {
        StreamState::Stopped => true,
        StreamState::Error { active, .. } => !active,
        _ => false,
    }
}

pub fn should_stop(stream: &StreamState) -> (r: bool)
    ensures
        r == should_stop_spec(*stream),
{
    match stream {
        StreamState::Starting | StreamState::Streaming => true,
        StreamState::Error { active, .. } => *active,
        _ => false,
    }
}

pub fn can_request_stop(stream: &StreamState) -> (r: bool)
    ensures
        r == can_request_stop_spec(*stream),
{
    match stream {
        StreamState::Streaming => true,
        StreamState::Error { active, .. } => *active,
        _ => false,
    }
}

pub fn is_inactive(stream: &StreamState) -> (r: bool)
    ensures
        r == is_inactive_spec(*stream),
{
    match stream {
        StreamState::Stopped => true,
        StreamState::Error { active, .. } => !*active,
        _ => false,
    }
}

/// What a toggle makes of the pending intent.
pub open spec fn toggled(pending: PendingIntent, stream: StreamState) -> PendingIntent {
    match pending {
        PendingIntent::Start => PendingIntent::Stop,
        PendingIntent::Stop => PendingIntent::Start,
        PendingIntent::Nothing => if should_stop_spec(stream) {
            PendingIntent::Stop
        } else {
            PendingIntent::Start
        },
    }
}

/// The action due now and the intent left afterwards.
pub open spec fn next_action_spec(
    pending: PendingIntent,
    connection: ConnectionState,
    stream: StreamState,
) -> (Option<StreamAction>, PendingIntent) {
    match pending {
        PendingIntent::Start => if connection == ConnectionState::Ready && is_inactive_spec(
            stream,
        ) {
            (Some(StreamAction::Start), pending)
        } else if should_stop_spec(stream) {
            (None, PendingIntent::Nothing)
        } else {
            (None, pending)
        },
        PendingIntent::Stop => if can_request_stop_spec(stream) {
            (Some(StreamAction::Stop), pending)
        } else if is_inactive_spec(stream) || stream == StreamState::Stopping {
            (None, PendingIntent::Nothing)
        } else {
            (None, pending)
        },
        PendingIntent::Nothing => (None, pending),
    }
}

/// Two toggles in a row, with nothing carried out between them, give back a
/// queued start or stop, and each toggle changes what is queued.
pub proof fn law_double_toggle_restores_queued(pending: PendingIntent, stream: StreamState)
    ensures
        toggled(pending, stream) != pending,
        pending != PendingIntent::Nothing ==> toggled(toggled(pending, stream), stream) == pending,
{
}

pub open spec fn pending_as_action(pending: PendingIntent) -> Option<StreamAction> {
    match pending {
        PendingIntent::Nothing => None,
        PendingIntent::Start => Some(StreamAction::Start),
        PendingIntent::Stop => Some(StreamAction::Stop),
    }
}

impl StreamIntent {
    pub closed spec fn pending(&self) -> PendingIntent {
        self.pending
    }

    /// Nothing queued.
    pub fn idle() -> (r: Self)
        ensures
            r.pending() == PendingIntent::Nothing,
    {
        StreamIntent { pending: PendingIntent::Nothing }
    }

    /// A start queued until a device is ready.
    pub fn auto_start() -> (r: Self)
        ensures
            r.pending() == PendingIntent::Start,
    {
        StreamIntent { pending: PendingIntent::Start }
    }

    /// Flips a queued action, or queues the opposite of what the stream does.
    pub fn toggle(&mut self, stream: &StreamState)
        ensures
            final(self).pending() == toggled(old(self).pending(), *stream),
    {
        self.pending = match self.pending {
            PendingIntent::Start => PendingIntent::Stop,
            PendingIntent::Stop => PendingIntent::Start,
            PendingIntent::Nothing => if should_stop(stream) {
                PendingIntent::Stop
            } else {
                PendingIntent::Start
            },
        };
    }

    /// The action to carry out now, if any; an intent that the stream already
    /// satisfies is dropped.
    pub fn next_action(&mut self, connection: &ConnectionState, stream: &StreamState) -> (r: Option<
        StreamAction,
    >)
        ensures
            (r, final(self).pending()) == next_action_spec(old(self).pending(), *connection, *stream),
    {
        match self.pending {
            PendingIntent::Start => {
                let ready = match connection {
                    ConnectionState::Ready => true,
                    _ => false,
                };
                if ready && is_inactive(stream) {
                    Some(StreamAction::Start)
                } else if should_stop(stream) {
                    self.pending = PendingIntent::Nothing;
                    None
                } else {
                    None
                }
            },
            PendingIntent::Stop => {
                let stopping = match stream {
                    StreamState::Stopping => true,
                    _ => false,
                };
                if can_request_stop(stream) {
                    Some(StreamAction::Stop)
                } else if is_inactive(stream) || stopping {
                    self.pending = PendingIntent::Nothing;
                    None
                } else {
                    None
                }
            },
            PendingIntent::Nothing => None,
        }
    }

    /// Marks `action` as carried out: the matching intent is cleared.
    pub fn complete(&mut self, action: StreamAction)
        ensures
            pending_as_action(old(self).pending()) == Some(action) ==> final(self).pending()
                == PendingIntent::Nothing,
            pending_as_action(old(self).pending()) != Some(action) ==> final(self).pending()
                == old(self).pending(),
    {
        let completed = match (self.pending, action) {
            (PendingIntent::Start, StreamAction::Start) => true,
            (PendingIntent::Stop, StreamAction::Stop) => true,
            _ => false,
        };
        if completed {
            self.pending = PendingIntent::Nothing;
        }
    }

    /// The queued action.
    pub fn pending_action(&self) -> (r: Option<StreamAction>)
        ensures
            r == pending_as_action(self.pending()),
    {
        match self.pending {
            PendingIntent::Nothing => None,
            PendingIntent::Start => Some(StreamAction::Start),
            PendingIntent::Stop => Some(StreamAction::Stop),
        }
    }
}

} // verus!
