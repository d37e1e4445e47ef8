use std::sync::mpsc::{Receiver, TryRecvError};

use vstd::prelude::*;

use crate::text::string_from;

verus! {

#[verifier::external_type_specification]
#[verifier::external_body]
#[verifier::reject_recursive_types(T)]
pub struct ExReceiver<T>(Receiver<T>);

/// What a look at a job's channel found.
pub enum ChannelPoll<T> {
    Received(T),
    Waiting,
    Disconnected,
}

/// `Receiver::try_recv`, told apart by outcome. Nothing is claimed about which
/// outcome comes: that depends on when the worker thread finishes.
#[verifier::external_body]
fn try_receive<T>(receiver: &Receiver<T>) -> ChannelPoll<T> {
    match receiver.try_recv() {
        Ok(value) => ChannelPoll::Received(value),
        Err(TryRecvError::Empty) => ChannelPoll::Waiting,
        Err(TryRecvError::Disconnected) => ChannelPoll::Disconnected,
    }
}

/// What a look `seen` at a job's channel gives the caller (`r`), and whether
/// the job still runs: a received result is handed on and ends the job; a
/// closed channel ends it with "Background job disconnected"; otherwise the job
/// keeps running and nothing comes back.
pub open spec fn poll_outcome_ok<T>(
    seen: ChannelPoll<Result<T, String>>,
    r: Option<Result<T, String>>,
    running: bool,
) -> bool {
    match seen {
        ChannelPoll::Received(result) => r == Some(result) && !running,
        ChannelPoll::Waiting => r is None && running,
        ChannelPoll::Disconnected => (r matches Some(Err(e)) && e@ == "Background job disconnected"@)
            && !running,
    }
}

/// `poll_outcome_ok`: the caller's result of a look at a job's channel, and
/// whether the job still runs.
pub fn poll_outcome<T>(seen: ChannelPoll<Result<T, String>>) -> (r: (Option<Result<T, String>>, bool))
    ensures
        poll_outcome_ok(seen, r.0, r.1),
{
    match seen {
        ChannelPoll::Received(result) => (Some(result), false),
        ChannelPoll::Waiting => (None, true),
        ChannelPoll::Disconnected => (Some(Err(string_from("Background job disconnected"))), false),
    }
}

/// A single piece of work that runs on another thread and reports one result.
#[verifier::reject_recursive_types(T)]
pub struct BackgroundJob<T> {
    receiver: Option<Receiver<Result<T, String>>>,
}

impl<T> BackgroundJob<T> {
    /// Whether a job was started and its result not yet taken.
    pub closed spec fn running(&self) -> bool {
        self.receiver is Some
    }

    pub fn new() -> (r: Self)
        ensures
            !r.running(),
    {
        BackgroundJob { receiver: None }
    }

    pub fn is_running(&self) -> (r: bool)
        ensures
            r == self.running(),
    {
        self.receiver.is_some()
    }

    /// Starts waiting on `receiver` for the result of a job; refused while
    /// another job runs.
    pub fn attach(&mut self, receiver: Receiver<Result<T, String>>) -> (r: Result<(), String>)
        ensures
            old(self).running() ==> r is Err && r->Err_0@ == "Background job is already running"@
                && final(self).running(),
            !old(self).running() ==> r is Ok && final(self).running(),
    {
        if self.receiver.is_some() {
            return Err(string_from("Background job is already running"));
        }
        self.receiver = Some(receiver);
        Ok(())
    }

    /// Takes the job's result when it is there. A job whose thread went away
    /// without a result reports "Background job disconnected". Nothing comes back
    /// while no job runs; while one runs, what comes back is `poll_outcome` of
    /// what its channel held.
    pub fn poll(&mut self) -> (r: Option<Result<T, String>>)
        ensures
            !old(self).running() ==> r is None && !final(self).running(),
            old(self).running() ==> exists|seen: ChannelPoll<Result<T, String>>|
                #[trigger] poll_outcome_ok(seen, r, final(self).running()),
    {
        let outcome = match &self.receiver {
            None => return None,
            Some(receiver) => try_receive(receiver),
        };
        let ghost seen = outcome;
        let (result, running) = poll_outcome(outcome);
        if !running {
            self.receiver = None;
        }
        assert(poll_outcome_ok(seen, result, self.running()));
        result
    }
}

} // verus!
