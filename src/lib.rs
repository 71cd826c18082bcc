//! Supervision of a child process's standard streams: the decisions and the
//! shared state behind a spawned child, its output fan-out and its input relay.
use vstd::prelude::*;

pub mod channel;
pub mod lifecycle;
pub mod liveness;
pub mod pipes;
pub mod registry;
pub mod relay;

verus! {

/// Pause, in milliseconds, between two polls of a worker that found nothing to do.
pub const MILLISEC_PAUSE: u64 = 100;

} // verus!
