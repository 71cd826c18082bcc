//! Forwarding from one channel to another, with a terminator appended to each
//! message.
use vstd::prelude::*;
use vstd::string::StringExecFns;
use std::sync::mpsc::{Receiver, Sender};
use crate::channel::{deliver, poll_channel, Polled};

verus! {

/// `message` followed by `end`.
pub fn with_terminator(message: String, end: &String) -> (r: String)
    ensures
        r@ == message@ + end@,
{
    message.concat(end.as_str())
}

/// What a forwarder does with what one receive found.
pub enum Forward {
    /// Send this downstream.
    Pass(String),
    /// Nothing came: only check that downstream is still there.
    Idle,
    /// Upstream is gone: stop.
    Stop,
}

/// The decision on one receive: a message goes on with `end` appended; an
/// empty channel means nothing to pass; a channel whose senders are all gone
/// ends the forwarding.
pub fn forward_decision(polled: Polled, end: &String) -> (r: Forward)
    ensures
        match polled {
            Polled::Message(m) => (r matches Forward::Pass(s) && s@ == m@ + end@),
            Polled::Empty => r is Idle,
            Polled::Disconnected => r is Stop,
        },
{
    match polled {
        Polled::Message(m) => Forward::Pass(with_terminator(m, end)),
        Polled::Empty => Forward::Idle,
        Polled::Disconnected => Forward::Stop,
    }
}

/// Whether forwarding goes on after one round, given the round's decision,
/// whether downstream accepted the message passed (if one was), and whether
/// it accepted the empty probe that follows: not once upstream is gone, nor
/// once downstream refused either.
pub open spec fn forward_continues(action: Forward, passed: bool, probed: bool) -> bool {
    match action {
        Forward::Stop => false,
        Forward::Pass(_) => passed && probed,
        Forward::Idle => probed,
    }
}

/// Decides, as `forward_continues` says, whether forwarding goes on.
pub fn forward_go_on(action: &Forward, passed: bool, probed: bool) -> (r: bool)
    ensures
        r == forward_continues(*action, passed, probed),
{
    match action {
        Forward::Stop => false,
        Forward::Pass(_) => passed && probed,
        Forward::Idle => probed,
    }
}

/// One round of forwarding from `rx` to `tx`: receives without blocking,
/// passes on what came with `end` appended, then checks that downstream is
/// still there by sending it an empty string; no probe follows a refused
/// pass. Returns whether to go on: not once upstream or downstream is gone.
pub fn forward_step(rx: &Receiver<String>, tx: &Sender<String>, end: &String) -> (go_on: bool)
    ensures
        exists|action: Forward, passed: bool, probed: bool|
            go_on == forward_continues(action, passed, probed),
{
    let action = forward_decision(poll_channel(rx), end);
    let passed = match &action {
        Forward::Pass(s) => deliver(tx, s.clone()),
        _ => true,
    };
    let probed = match &action {
        Forward::Stop => false,
        _ => if passed {
            deliver(tx, String::new())
        } else {
            false
        },
    };
    forward_go_on(&action, passed, probed)
}

} // verus!
