use py_hotstart::child_id::ChildId;
use py_hotstart::server::ServerCore;
use py_hotstart::supervisor::SupervisorError;

const NO_SUCH_PID: i32 = 2_000_000_000;

#[test]
fn fresh_server_needs_first_spawn() {
    let core = ServerCore::new();
    assert!(core.needs_spawn());
    assert!(core.prelude().is_none());
    assert!(core.take_begin().is_none());
}

#[test]
fn spawn_fills_slot_and_take_refills() {
    let mut core = ServerCore::new();
    let first = core.note_spawned(NO_SUCH_PID);
    assert_eq!(first, ChildId::new(1, NO_SUCH_PID));
    assert!(!core.needs_spawn());

    // Handoff: the slot keeps its reference until the send succeeded.
    let granted = core.take_begin().unwrap();
    assert_eq!(granted, first);
    assert!(!core.needs_spawn());
    core.take_commit();
    assert!(core.needs_spawn());

    // Refill before the next accept: a fresh child under the next number.
    let second = core.note_spawned(NO_SUCH_PID - 1);
    assert_eq!(second, ChildId::new(2, NO_SUCH_PID - 1));
    assert!(!core.needs_spawn());
}

#[test]
fn init_stores_prelude_and_empties_slot() {
    let mut core = ServerCore::new();
    assert!(core.init_begin(b"X = 42".to_vec()).is_ok());
    assert_eq!(core.prelude().clone().unwrap(), b"X = 42".to_vec());
    assert!(core.needs_spawn());

    // A second init replaces the prelude.
    assert!(core.init_begin(b"".to_vec()).is_ok());
    assert_eq!(core.prelude().clone().unwrap(), b"".to_vec());
}

#[test]
fn init_on_empty_slot_leaves_supervisor_untouched() {
    let mut core = ServerCore::new();
    assert!(core.init_begin(b"A = 1".to_vec()).is_ok());
    // Nothing was running, so nothing was killed and nothing recorded.
    assert_eq!(
        core.handle_exitcode(ChildId::new(1, 0)),
        Err(SupervisorError::UnknownChild)
    );
}

#[test]
fn exitcode_for_unknown_child_fails() {
    let mut core = ServerCore::new();
    assert_eq!(
        core.handle_exitcode(ChildId::new(9, NO_SUCH_PID)),
        Err(SupervisorError::UnknownChild)
    );
    // A pid of zero is never waited on; only the ring is consulted.
    assert_eq!(
        core.handle_exitcode(ChildId::new(9, 0)),
        Err(SupervisorError::UnknownChild)
    );
}

#[test]
fn sigchld_with_no_children_is_ok() {
    let mut core = ServerCore::new();
    assert!(core.handle_sigchld().is_ok());
}

#[test]
fn shutdown_on_fresh_server_is_quiet() {
    let mut core = ServerCore::new();
    core.shutdown();
}
