use py_hotstart::pidfile::{parse_pid_line, PidFile};

#[test]
fn acquire_on_empty_path_succeeds() {
    let mut file = PidFile::new(None);
    let guard = file.acquire(1234, false).unwrap();
    assert_eq!(guard.pid(), 1234);
}

#[test]
fn second_acquire_observes_running_owner() {
    let mut file = PidFile::new(None);
    let _guard = file.acquire(1234, false).unwrap();
    // The first owner is alive: the second caller must lose and see its pid.
    match file.acquire(5678, true) {
        Err(p) => assert_eq!(p, 1234),
        Ok(_) => panic!("second acquire must not succeed"),
    }
}

#[test]
fn stale_file_is_discarded() {
    let mut file = PidFile::new(Some(77));
    // The named process is gone: the stale file is unlinked and the path is free.
    assert_eq!(file.test(false), None);
    let guard = file.acquire(88, false).unwrap();
    assert_eq!(guard.pid(), 88);
}

#[test]
fn live_file_reports_owner() {
    let mut file = PidFile::new(Some(77));
    assert_eq!(file.test(true), Some(77));
}

#[test]
fn release_frees_the_path() {
    let mut file = PidFile::new(None);
    let guard = file.acquire(42, false).unwrap();
    file.release(guard);
    assert!(file.acquire(43, false).is_ok());
}

#[test]
fn pid_line_parsing() {
    assert_eq!(parse_pid_line(b"1234\n"), Some(1234));
    assert_eq!(parse_pid_line(b"  567 "), Some(567));
    assert_eq!(parse_pid_line(b"0"), None);
    assert_eq!(parse_pid_line(b"-5"), None);
    assert_eq!(parse_pid_line(b"abc"), None);
    assert_eq!(parse_pid_line(b""), None);
    assert_eq!(parse_pid_line(b"2147483648"), None);
}
