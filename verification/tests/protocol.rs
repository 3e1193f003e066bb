use py_hotstart::child_id::ChildId;
use py_hotstart::protocol::{
    format_bad_child_id_error, format_error, format_exitcode_response, format_no_interpreter_error,
    format_ok, format_take_response, format_unknown_command_error, parse_request, Request,
};

#[test]
fn parse_take_request() {
    assert!(matches!(parse_request(b"TAKE"), Request::Take));
    // Trailing whitespace is ignored.
    assert!(matches!(parse_request(b"TAKE\n"), Request::Take));
}

#[test]
fn parse_init_request_keeps_prelude() {
    match parse_request(b"INIT import os\nX = 42") {
        Request::Init { prelude } => assert_eq!(prelude, b"import os\nX = 42".to_vec()),
        _ => panic!("expected INIT"),
    }
}

#[test]
fn parse_init_request_trims_trailing_whitespace() {
    match parse_request(b"INIT X = 42\n") {
        Request::Init { prelude } => assert_eq!(prelude, b"X = 42".to_vec()),
        _ => panic!("expected INIT"),
    }
    // An empty prelude is a valid INIT.
    match parse_request(b"INIT \n") {
        Request::Init { prelude } => assert_eq!(prelude, b"".to_vec()),
        _ => panic!("expected INIT"),
    }
}

#[test]
fn parse_exitcode_request() {
    match parse_request(b"EXITCODE (2,81581)") {
        Request::ExitCode { id } => assert_eq!(id, ChildId::new(2, 81581)),
        _ => panic!("expected EXITCODE"),
    }
    // The id may carry surrounding whitespace.
    match parse_request(b"EXITCODE  (2,81581) \n") {
        Request::ExitCode { id } => assert_eq!(id, ChildId::new(2, 81581)),
        _ => panic!("expected EXITCODE"),
    }
}

#[test]
fn parse_exitcode_request_with_bad_id() {
    assert!(matches!(parse_request(b"EXITCODE (a,b)"), Request::BadExitCode));
    assert!(matches!(parse_request(b"EXITCODE x"), Request::BadExitCode));
}

#[test]
fn parse_unknown_request() {
    assert!(matches!(parse_request(b"NOPE"), Request::Unknown));
    assert!(matches!(parse_request(b""), Request::Unknown));
    assert!(matches!(parse_request(b"TAKE EXTRA"), Request::Unknown));
    // Prefixes must match exactly.
    assert!(matches!(parse_request(b"INITX"), Request::Unknown));
    assert!(matches!(parse_request(b"init 1"), Request::Unknown));
}

#[test]
fn responses_have_exact_texts() {
    assert_eq!(format_ok(), b"OK".to_vec());
    assert_eq!(
        format_take_response(&ChildId::new(2, 81581)),
        b"OK (2,81581)".to_vec()
    );
    assert_eq!(format_exitcode_response(143), b"OK 143".to_vec());
    assert_eq!(format_exitcode_response(0), b"OK 0".to_vec());
    assert_eq!(format_error(b"boom"), b"ERROR: boom\n".to_vec());
    assert_eq!(format_no_interpreter_error(), b"ERROR: no interpreter\n".to_vec());
    assert_eq!(
        format_unknown_command_error(),
        b"ERROR: Unknown command\n".to_vec()
    );
    assert_eq!(
        format_bad_child_id_error(),
        b"ERROR: invalid ChildId\n".to_vec()
    );
}
