use py_hotstart::child_id::ChildId;
use py_hotstart::client::{get_exit_code, initialize, take_interpreter, ClientError};

#[test]
fn initialize_exchange_round_trip() {
    let ex = initialize(b"X = 42");
    assert_eq!(ex.request().clone(), b"INIT X = 42".to_vec());
    assert!(ex.finish(b"OK").is_ok());
}

#[test]
fn initialize_rejects_error_reply() {
    let ex = initialize(b"");
    match ex.finish(b"ERROR: spawn failed\n") {
        Err(ClientError::UnexpectedResponse(m)) => {
            assert_eq!(m, b"ERROR: spawn failed\n".to_vec())
        }
        _ => panic!("expected rejection"),
    }
}

#[test]
fn take_exchange_parses_id_and_fds() {
    let ex = take_interpreter();
    assert_eq!(ex.request().clone(), b"TAKE".to_vec());
    let id = ex.finish(b"OK (2,81581)", 2).unwrap();
    assert_eq!(id, ChildId::new(2, 81581));
}

#[test]
fn take_exchange_with_missing_fds_surfaces_server_error() {
    let ex = take_interpreter();
    match ex.finish(b"ERROR: no interpreter\n", 0) {
        Err(ClientError::ServerReportedError(m)) => {
            assert_eq!(m, b"ERROR: no interpreter\n".to_vec())
        }
        _ => panic!("expected server error"),
    }
}

#[test]
fn take_exchange_rejects_malformed_body() {
    let ex = take_interpreter();
    assert!(matches!(
        ex.finish(b"(2,81581)", 2),
        Err(ClientError::UnexpectedResponse(_))
    ));
}

#[test]
fn exit_code_exchange_round_trip() {
    let id = ChildId::new(2, 81581);
    let ex = get_exit_code(&id);
    assert_eq!(ex.request().clone(), b"EXITCODE (2,81581)".to_vec());
    assert_eq!(ex.finish(b"OK 143").unwrap(), 143);
}

#[test]
fn exit_code_exchange_trims_reply() {
    let id = ChildId::new(1, 2);
    let ex = get_exit_code(&id);
    assert_eq!(ex.finish(b"OK 0\n").unwrap(), 0);
}

#[test]
fn exit_code_exchange_rejects_bad_replies() {
    let id = ChildId::new(1, 2);
    for reply in [
        &b"ERROR: could not get exit code\n"[..],
        b"OK",
        b"OK x",
        b"OK -1",
        b"143",
    ] {
        let ex = get_exit_code(&id);
        assert!(ex.finish(reply).is_err(), "should reject {:?}", reply);
    }
}
