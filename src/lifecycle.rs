//! The supervised process's life: how it is built, how its exit is reported,
//! what a kill returns, and the order of teardown.
use vstd::prelude::*;

verus! {

/// One of the child's three standard streams.
#[derive(Clone, Copy, Debug, PartialEq, Eq, Structural)]
pub enum StreamRole {
    Stdin,
    Stdout,
    Stderr,
}

/// What can go wrong in supervising a process.
#[derive(Debug, PartialEq, Eq)]
pub enum SupervisorError {
    /// The process could not be started (missing executable, permission
    /// denied, resources exhausted).
    Spawn(String),
    /// The system did not hand back a stream that was asked for as a pipe.
    StreamUnavailable(StreamRole),
    /// The termination signal could not be delivered to a running process.
    Kill(String),
    /// Waiting for the process failed.
    Wait(String),
}

/// How the process ended: `success` for a normal exit with status zero, the
/// exit code if it exited normally, the signal if a signal ended it.
#[derive(Clone, Copy, Debug, PartialEq, Eq, Structural)]
pub struct ExitStatus {
    pub success: bool,
    pub code: Option<i32>,
    pub signal: Option<i32>,
}

impl ExitStatus {
    /// The status of a process that ended with exit code `code`, if it
    /// exited normally, and by signal `signal`, if a signal ended it.
    pub fn from_parts(code: Option<i32>, signal: Option<i32>) -> (r: ExitStatus)
        ensures
            r.success == (code == Some(0i32)),
            r.code == code,
            r.signal == signal,
    {
        let success = match code {
            Some(c) => c == 0,
            None => false,
        };
        ExitStatus { success, code, signal }
    }
}

/// Takes the three pipes that were asked of the system, in the order stdin,
/// stdout, stderr. All three must be there: the first one missing is named
/// in the error.
pub fn take_streams<I, O, E>(stdin: Option<I>, stdout: Option<O>, stderr: Option<E>) -> (r: Result<
    (I, O, E),
    SupervisorError,
>)
    ensures
        r is Ok <==> (stdin is Some && stdout is Some && stderr is Some),
        r matches Ok((i, o, e)) ==> stdin == Some(i) && stdout == Some(o) && stderr == Some(e),
        stdin is None ==> r == Err::<(I, O, E), _>(SupervisorError::StreamUnavailable(StreamRole::Stdin)),
        stdin is Some && stdout is None ==> r == Err::<(I, O, E), _>(
            SupervisorError::StreamUnavailable(StreamRole::Stdout),
        ),
        stdin is Some && stdout is Some && stderr is None ==> r == Err::<(I, O, E), _>(
            SupervisorError::StreamUnavailable(StreamRole::Stderr),
        ),
{
    match stdin {
        None => Err(SupervisorError::StreamUnavailable(StreamRole::Stdin)),
        Some(i) => match stdout {
            None => Err(SupervisorError::StreamUnavailable(StreamRole::Stdout)),
            Some(o) => match stderr {
                None => Err(SupervisorError::StreamUnavailable(StreamRole::Stderr)),
                Some(e) => Ok((i, o, e)),
            },
        },
    }
}

/// The status kept once `st` has been observed: the first status observed
/// stands, since a process ends only once.
pub open spec fn after_exit(known: Option<ExitStatus>, st: ExitStatus) -> Option<ExitStatus> {
    match known {
        Some(s) => Some(s),
        None => Some(st),
    }
}

/// What a kill reports, given the exit status known so far and how the
/// termination signal went: success if it was delivered or the process had
/// already exited; otherwise the signal's error.
pub open spec fn kill_result(known: Option<ExitStatus>, signal: Result<(), String>) -> Result<
    (),
    SupervisorError,
> {
    match signal {
        Ok(()) => Ok(()),
        Err(m) => if known is Some {
            Ok(())
        } else {
            Err(SupervisorError::Kill(m))
        },
    }
}

/// What is known of the process's exit.
pub struct ExitRecord {
    status: Option<ExitStatus>,
}

impl ExitRecord {
    /// The exit status observed so far, if any.
    pub closed spec fn known(&self) -> Option<ExitStatus> {
        self.status
    }

    /// Nothing known yet: the process is running.
    pub fn new() -> (r: ExitRecord)
        ensures
            r.known() is None,
    {
        ExitRecord { status: None }
    }

    /// The exit status observed so far, if any.
    pub fn status(&self) -> (r: Option<ExitStatus>)
        ensures
            r == self.known(),
    {
        self.status
    }

    /// Records that the process was seen to end with `st`, and returns the
    /// status that stands, which is the first one observed.
    pub fn record(&mut self, st: ExitStatus) -> (r: ExitStatus)
        ensures
            final(self).known() == after_exit(old(self).known(), st),
            final(self).known() == Some(r),
    {
        match self.status {
            Some(s) => s,
            None => {
                self.status = Some(st);
                st
            },
        }
    }

    /// What a kill reports, given how the termination signal went: killing a
    /// process already known to have exited is no error.
    pub fn kill_outcome(&self, signal: Result<(), String>) -> (r: Result<(), SupervisorError>)
        ensures
            r == kill_result(self.known(), signal),
    {
        match signal {
            Ok(()) => Ok(()),
            Err(m) => if self.status.is_some() {
                Ok(())
            } else {
                Err(SupervisorError::Kill(m))
            },
        }
    }
}

/// Stopping is idempotent: once an exit is known, any further kill reports
/// success whatever the signal did, and any further exit observed leaves the
/// known status as it is.
pub proof fn lemma_stop_idempotent(
    known: Option<ExitStatus>,
    st: ExitStatus,
    later: ExitStatus,
    signal: Result<(), String>,
)
    ensures
        kill_result(after_exit(known, st), signal) is Ok,
        after_exit(after_exit(known, st), later) == after_exit(known, st),
{
}

/// The three background workers of a supervised process.
#[derive(Clone, Copy, Debug, PartialEq, Eq, Structural)]
pub enum WorkerRole {
    StdinRelay,
    StdoutBroadcaster,
    StderrBroadcaster,
}

/// One step of teardown.
#[derive(Clone, Copy, Debug, PartialEq, Eq, Structural)]
pub enum TeardownStep {
    /// Drop the input sender and the subscriber registrations held by the
    /// supervisor, so that the workers can see the disconnection.
    ReleaseHandles,
    /// Clear the liveness flag.
    ClearLiveness,
    /// Wait for a worker to finish.
    Join(WorkerRole),
}

/// The order of teardown: release, clear the flag, then join the input relay
/// before the stdout and the stderr broadcasters, so that the child's input
/// path is freed first.
pub open spec fn teardown_order() -> Seq<TeardownStep> {
    seq![
        TeardownStep::ReleaseHandles,
        TeardownStep::ClearLiveness,
        TeardownStep::Join(WorkerRole::StdinRelay),
        TeardownStep::Join(WorkerRole::StdoutBroadcaster),
        TeardownStep::Join(WorkerRole::StderrBroadcaster),
    ]
}

/// The steps of teardown, in the order they are to be carried out.
pub fn teardown_plan() -> (r: Vec<TeardownStep>)
    ensures
        r@ == teardown_order(),
{
    let r = vec![
        TeardownStep::ReleaseHandles,
        TeardownStep::ClearLiveness,
        TeardownStep::Join(WorkerRole::StdinRelay),
        TeardownStep::Join(WorkerRole::StdoutBroadcaster),
        TeardownStep::Join(WorkerRole::StderrBroadcaster),
    ];
    assert(r@ =~= teardown_order());
    r
}

} // verus!
