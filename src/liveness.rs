//! A one-shot signal that the supervised process is no longer active.
use vstd::prelude::*;

verus! {

/// Shared liveness of the supervised process: set when created, cleared once
/// by `kill`, `wait` or teardown, and never set again.
pub struct LivenessFlag {
    alive: bool,
}

impl View for LivenessFlag {
    type V = bool;

    closed spec fn view(&self) -> bool {
        self.alive
    }
}

impl LivenessFlag {
    /// A flag for a process that has just started.
    pub fn new() -> (r: LivenessFlag)
        ensures
            r@,
    {
        LivenessFlag { alive: true }
    }

    /// Whether the process is still considered active.
    pub fn is_alive(&self) -> (r: bool)
        ensures
            r == self@,
    {
        self.alive
    }

    /// Marks the process as no longer active. Repeating it changes nothing.
    pub fn clear(&mut self)
        ensures
            !final(self)@,
    {
        self.alive = false;
    }
}

} // verus!
