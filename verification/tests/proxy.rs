use py_hotstart::proxy::{effective_window_size, ProxyAction, ProxyEvent, ProxyState, WindowSize};

#[test]
fn proxy_forwards_both_directions() {
    let mut p = ProxyState::new();
    assert!(p.running());
    assert!(p.wants_pty());
    assert!(p.wants_stdin());
    assert!(matches!(
        p.step(ProxyEvent::StdinInput { eof: false }),
        ProxyAction::ForwardToPty
    ));
    assert!(matches!(
        p.step(ProxyEvent::PtyInput { eof: false }),
        ProxyAction::ForwardToStdout
    ));
    assert!(matches!(p.step(ProxyEvent::WindowChange), ProxyAction::SyncWindow));
    assert!(p.running());
}

#[test]
fn proxy_finishes_on_pty_eof() {
    let mut p = ProxyState::new();
    assert!(matches!(p.step(ProxyEvent::PtyInput { eof: true }), ProxyAction::Finish));
    assert!(!p.running());
    assert!(!p.wants_pty());
    assert!(!p.wants_stdin());
}

#[test]
fn window_size_falls_back_to_default() {
    let real = WindowSize { rows: 52, cols: 120, xpixel: 0, ypixel: 0 };
    assert_eq!(effective_window_size(Some(real)), real);
    assert_eq!(
        effective_window_size(None),
        WindowSize { rows: 30, cols: 80, xpixel: 640, ypixel: 480 }
    );
}

#[test]
fn proxy_stops_polling_stdin_after_eof() {
    let mut p = ProxyState::new();
    assert!(matches!(
        p.step(ProxyEvent::StdinInput { eof: true }),
        ProxyAction::ClosePtyWrite
    ));
    assert!(!p.wants_stdin());
    // The session continues on the PTY side, and stdin stays off for good.
    assert!(p.running());
    assert!(p.wants_pty());
    assert!(matches!(p.step(ProxyEvent::WindowChange), ProxyAction::SyncWindow));
    assert!(!p.wants_stdin());
    assert!(matches!(
        p.step(ProxyEvent::PtyInput { eof: false }),
        ProxyAction::ForwardToStdout
    ));
    assert!(!p.wants_stdin());
    assert!(matches!(p.step(ProxyEvent::PtyInput { eof: true }), ProxyAction::Finish));
    assert!(!p.wants_stdin());
}
