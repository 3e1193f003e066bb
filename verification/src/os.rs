//! Trusted wrappers around the few process-management calls the verified
//! supervisor loops need. Each wrapper holds exactly one outside call; the
//! supervisor's own logic takes every possible outcome into account.

use vstd::prelude::*;

verus! {

/// Outcome of one wait on child processes.
pub enum WaitEvent {
    /// A child exited by itself; `status` is its exit status.
    Exited { pid: i32, status: i32 },
    /// A child was killed by a signal; `signal` is the signal's number.
    Signaled { pid: i32, signal: i32 },
    /// Nothing to report yet (non-blocking wait only).
    NotReady,
    /// The calling process has no children to wait for.
    NoChildren,
    /// A state change that does not end a child (stopped, continued, traced).
    Other,
    /// The wait itself failed.
    Failed,
}

/// Ranges the operating system guarantees for reported events.
pub open spec fn wait_event_wf(ev: WaitEvent) -> bool {
    match ev {
        WaitEvent::Exited { pid, status } => 0 <= status <= 255,
        WaitEvent::Signaled { pid, signal } => 1 <= signal <= 64,
        _ => true,
    }
}

/// Relies on nix::sys::wait::waitpid. With a positive target pid only that
/// process is reported; an exit carries `WEXITSTATUS` (0..=255); a death by
/// signal carries the signal's number (a `nix` `Signal`, at most 64). `ECHILD`
/// becomes `NoChildren`; `WNOHANG` with nothing pending becomes `NotReady`.
#[verifier::external_body]
pub fn wait_child(target: Option<i32>, nohang: bool) -> (ev: WaitEvent)
    requires
        target matches Some(t) ==> t > 0,
    ensures
        wait_event_wf(ev),
        ev matches WaitEvent::Exited { pid, status } && target matches Some(t) ==> pid == t,
        ev matches WaitEvent::Signaled { pid, signal } && target matches Some(t) ==> pid == t,
        ev is NotReady ==> nohang,
{
    let pid = target.map(nix::unistd::Pid::from_raw);
    let options = if nohang { Some(nix::sys::wait::WaitPidFlag::WNOHANG) } else { None };
    match nix::sys::wait::waitpid(pid, options) {
        Ok(nix::sys::wait::WaitStatus::Exited(p, code)) =>
            WaitEvent::Exited { pid: p.as_raw(), status: code },
        Ok(nix::sys::wait::WaitStatus::Signaled(p, sig, _)) =>
            WaitEvent::Signaled { pid: p.as_raw(), signal: sig as i32 },
        Ok(nix::sys::wait::WaitStatus::StillAlive) => WaitEvent::NotReady,
        Ok(_) => WaitEvent::Other,
        Err(nix::errno::Errno::ECHILD) => WaitEvent::NoChildren,
        Err(_) => WaitEvent::Failed,
    }
}

/// Relies on nix::sys::signal::kill: delivers SIGKILL (forceful) or SIGTERM
/// (graceful) to the process. Whether and when the process dies is not
/// observable here; delivery errors are ignored, as a vanished child reports
/// through the next wait.
#[verifier::external_body]
pub fn send_signal(pid: i32, forceful: bool)
    requires
        pid > 0,
{
    let sig = if forceful {
        nix::sys::signal::Signal::SIGKILL
    } else {
        nix::sys::signal::Signal::SIGTERM
    };
    let _ = nix::sys::signal::kill(nix::unistd::Pid::from_raw(pid), sig);
}

/// Relies on nix::poll::poll with no descriptors: blocks for roughly the
/// given number of milliseconds and reports nothing.
#[verifier::external_body]
pub fn sleep_ms(ms: u16) {
    let mut fds: [nix::poll::PollFd; 0] = [];
    let _ = nix::poll::poll(&mut fds, ms);
}

} // verus!
