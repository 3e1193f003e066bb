use py_hotstart::child_id::ChildId;
use py_hotstart::os::WaitEvent;
use py_hotstart::supervisor::{exit_code_of, Supervisor, SupervisorError};

// A pid far above any real pid_max, so signals and waits see no process.
const NO_SUCH_PID: i32 = 2_000_000_000;

#[test]
fn sequence_numbers_strictly_increase() {
    let mut sup = Supervisor::new();
    let first = sup.note_spawned(NO_SUCH_PID);
    let second = sup.note_spawned(NO_SUCH_PID - 1);
    let third = sup.note_spawned(NO_SUCH_PID - 2);
    assert_eq!(first, 1);
    assert_eq!(second, 2);
    assert_eq!(third, 3);
}

#[test]
fn handle_sigchld_without_children_is_ok() {
    let mut sup = Supervisor::new();
    assert!(sup.handle_sigchld().is_ok());
}

#[test]
fn exit_code_of_untracked_child_is_unknown() {
    let mut sup = Supervisor::new();
    let id = ChildId::new(1, NO_SUCH_PID);
    assert_eq!(sup.get_exit_code(id), Err(SupervisorError::UnknownChild));
}

#[test]
fn kill_of_untracked_child_reports_missing_exit_info() {
    let mut sup = Supervisor::new();
    let id = ChildId::new(7, NO_SUCH_PID);
    assert_eq!(sup.kill(&id), Err(SupervisorError::MissingExitInfo));
}

#[test]
fn kill_escalates_when_child_never_reports() {
    // The tracked pid does not exist, so no exit can ever be reaped: the
    // graceful window runs out, the forceful signal is sent, and the
    // bookkeeping honestly reports that it has no exit entry.
    let mut sup = Supervisor::new();
    let seq = sup.note_spawned(NO_SUCH_PID);
    let id = ChildId::new(seq, NO_SUCH_PID);
    assert_eq!(sup.kill(&id), Err(SupervisorError::MissingExitInfo));
}

#[test]
fn shutdown_with_no_children_is_quiet() {
    let mut sup = Supervisor::new();
    sup.shutdown();
}

#[test]
fn exit_codes_classify_natural_and_signal_deaths() {
    assert_eq!(exit_code_of(&WaitEvent::Exited { pid: 5, status: 0 }), Some((5, 0)));
    assert_eq!(exit_code_of(&WaitEvent::Exited { pid: 5, status: 1 }), Some((5, 1)));
    // Death by SIGTERM records 128 + 15, by SIGKILL 128 + 9.
    assert_eq!(exit_code_of(&WaitEvent::Signaled { pid: 5, signal: 15 }), Some((5, 143)));
    assert_eq!(exit_code_of(&WaitEvent::Signaled { pid: 5, signal: 9 }), Some((5, 137)));
    assert_eq!(exit_code_of(&WaitEvent::NotReady), None);
    assert_eq!(exit_code_of(&WaitEvent::NoChildren), None);
    assert_eq!(exit_code_of(&WaitEvent::Other), None);
    assert_eq!(exit_code_of(&WaitEvent::Failed), None);
}

#[test]
fn error_messages_are_fixed_texts() {
    assert_eq!(
        SupervisorError::UnknownChild.message(),
        b"could not get exit code".to_vec()
    );
    assert_eq!(
        SupervisorError::MissingExitInfo.message(),
        b"missing exit info".to_vec()
    );
    assert_eq!(
        SupervisorError::UnrecognizedPid.message(),
        b"unrecognized pid".to_vec()
    );
    assert_eq!(SupervisorError::WaitFailed.message(), b"wait failed".to_vec());
}
