//! The decisions of a worker that drains a channel: the input relay, which
//! feeds the child's input, and the printer, which feeds an output.
use vstd::prelude::*;
use std::sync::mpsc::Receiver;
use crate::channel::{poll_channel, Polled};

verus! {

/// What a draining worker does next.
pub enum DrainAction {
    /// Write this string, verbatim, to the destination.
    Write(String),
    /// Nothing to do now: pause for the poll interval, then look again.
    Pause,
    /// Leave the loop for good.
    Stop,
}

/// The decision on one receive: a queued string is written; a channel whose
/// senders are all gone ends the loop whatever the flag says; an empty one
/// ends it once the process is no longer alive, and otherwise means a pause.
pub open spec fn drain_decision(polled: Polled, alive: bool) -> DrainAction {
    match polled {
        Polled::Message(s) => DrainAction::Write(s),
        Polled::Disconnected => DrainAction::Stop,
        Polled::Empty => if alive {
            DrainAction::Pause
        } else {
            DrainAction::Stop
        },
    }
}

/// The state of a worker that drains a channel into a destination: whether it
/// has stopped, and the last write that failed, kept so that it can be asked
/// for rather than lost.
pub struct InputRelay {
    stopped: bool,
    last_error: Option<String>,
}

impl InputRelay {
    /// The worker has left its loop.
    pub closed spec fn stopped(&self) -> bool {
        self.stopped
    }

    /// The error of the last write that failed, if any did.
    pub closed spec fn last_error_spec(&self) -> Option<String> {
        self.last_error
    }

    /// A worker that has not stopped and has seen no failed write.
    pub fn new() -> (r: InputRelay)
        ensures
            !r.stopped(),
            r.last_error_spec() is None,
    {
        InputRelay { stopped: false, last_error: None }
    }

    /// Whether the worker has left its loop.
    pub fn is_stopped(&self) -> (r: bool)
        ensures
            r == self.stopped(),
    {
        self.stopped
    }

    /// The error of the last write that failed, if any did.
    pub fn last_error(&self) -> (r: &Option<String>)
        ensures
            *r == self.last_error_spec(),
    {
        &self.last_error
    }

    /// Decides what to do with what one receive found, given whether the
    /// process is still alive. A stopped worker stays stopped.
    pub fn decide(&mut self, polled: Polled, alive: bool) -> (r: DrainAction)
        ensures
            r == if old(self).stopped() {
                DrainAction::Stop
            } else {
                drain_decision(polled, alive)
            },
            final(self).stopped() == (r is Stop),
            final(self).last_error_spec() == old(self).last_error_spec(),
    {
        if self.stopped {
            return DrainAction::Stop;
        }
        let r = match polled {
            Polled::Message(s) => DrainAction::Write(s),
            Polled::Disconnected => DrainAction::Stop,
            Polled::Empty => if alive {
                DrainAction::Pause
            } else {
                DrainAction::Stop
            },
        };
        if let DrainAction::Stop = r {
            self.stopped = true;
        }
        r
    }

    /// Receives from `rx` without blocking and decides, as `decide` does, on
    /// what came. A stopped worker does not receive at all.
    pub fn step(&mut self, rx: &Receiver<String>, alive: bool) -> (r: DrainAction)
        ensures
            old(self).stopped() ==> r is Stop,
            !old(self).stopped() ==> exists|p: Polled| r == drain_decision(p, alive),
            !alive ==> !(r is Pause),
            final(self).stopped() == (r is Stop),
            final(self).last_error_spec() == old(self).last_error_spec(),
    {
        if self.stopped {
            return DrainAction::Stop;
        }
        let polled = poll_channel(rx);
        self.decide(polled, alive)
    }

    /// Records how a write of the worker went: a failure is kept as the last
    /// error, a success leaves the record as it was.
    pub fn record_write(&mut self, outcome: Result<(), String>)
        ensures
            final(self).stopped() == old(self).stopped(),
            final(self).last_error_spec() == match outcome {
                Ok(()) => old(self).last_error_spec(),
                Err(e) => Some(e),
            },
    {
        if let Err(e) = outcome {
            self.last_error = Some(e);
        }
    }
}

/// Once the liveness flag is cleared the relay never pauses again: each
/// receive either hands on a queued string or ends the loop, so the relay
/// stops as soon as its queue is drained, without waiting out another poll
/// interval.
pub proof fn lemma_no_pause_once_cleared(polled: Polled)
    ensures
        !(drain_decision(polled, false) is Pause),
        polled is Empty ==> drain_decision(polled, false) is Stop,
        polled is Disconnected ==> drain_decision(polled, true) is Stop,
{
}

} // verus!
