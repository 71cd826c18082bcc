use monitor::lifecycle::{
    take_streams, teardown_plan, ExitRecord, ExitStatus, StreamRole, SupervisorError,
    TeardownStep, WorkerRole,
};
use monitor::liveness::LivenessFlag;

#[test]
fn exit_code_zero_is_success() {
    let st = ExitStatus::from_parts(Some(0), None);
    assert_eq!(st, ExitStatus { success: true, code: Some(0), signal: None });
}

#[test]
fn nonzero_exit_code_is_failure() {
    let st = ExitStatus::from_parts(Some(3), None);
    assert_eq!(st, ExitStatus { success: false, code: Some(3), signal: None });
}

#[test]
fn signal_is_failure() {
    let st = ExitStatus::from_parts(None, Some(9));
    assert_eq!(st, ExitStatus { success: false, code: None, signal: Some(9) });
}

#[test]
fn all_streams_present() {
    let r = take_streams(Some(1u8), Some("out"), Some(2i64));
    assert_eq!(r, Ok((1u8, "out", 2i64)));
}

#[test]
fn missing_stdin_is_reported() {
    let r = take_streams(None::<u8>, Some(1u8), None::<u8>);
    assert_eq!(r, Err(SupervisorError::StreamUnavailable(StreamRole::Stdin)));
}

#[test]
fn missing_stdout_is_reported() {
    let r = take_streams(Some(1u8), None::<u8>, None::<u8>);
    assert_eq!(r, Err(SupervisorError::StreamUnavailable(StreamRole::Stdout)));
}

#[test]
fn missing_stderr_is_reported() {
    let r = take_streams(Some(1u8), Some(2u8), None::<u8>);
    assert_eq!(r, Err(SupervisorError::StreamUnavailable(StreamRole::Stderr)));
}

#[test]
fn kill_of_running_process() {
    let rec = ExitRecord::new();
    assert_eq!(rec.kill_outcome(Ok(())), Ok(()));
    assert_eq!(
        rec.kill_outcome(Err(String::from("no permission"))),
        Err(SupervisorError::Kill(String::from("no permission")))
    );
}

#[test]
fn kill_after_exit_is_not_an_error() {
    let mut rec = ExitRecord::new();
    rec.record(ExitStatus::from_parts(Some(0), None));
    assert_eq!(rec.kill_outcome(Err(String::from("no such process"))), Ok(()));
    assert_eq!(rec.kill_outcome(Ok(())), Ok(()));
}

#[test]
fn first_exit_status_stands() {
    let mut rec = ExitRecord::new();
    assert_eq!(rec.status(), None);
    let first = ExitStatus::from_parts(None, Some(15));
    assert_eq!(rec.record(first), first);
    assert_eq!(rec.record(ExitStatus::from_parts(Some(0), None)), first);
    assert_eq!(rec.status(), Some(first));
}

#[test]
fn teardown_order() {
    assert_eq!(
        teardown_plan(),
        vec![
            TeardownStep::ReleaseHandles,
            TeardownStep::ClearLiveness,
            TeardownStep::Join(WorkerRole::StdinRelay),
            TeardownStep::Join(WorkerRole::StdoutBroadcaster),
            TeardownStep::Join(WorkerRole::StderrBroadcaster),
        ]
    );
}

#[test]
fn liveness_flag_is_one_shot() {
    let mut flag = LivenessFlag::new();
    assert!(flag.is_alive());
    flag.clear();
    assert!(!flag.is_alive());
    flag.clear();
    assert!(!flag.is_alive());
}
