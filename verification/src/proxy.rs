//! The terminal proxy's state machine. The caller multiplexes three
//! descriptors — the window-change stream, the PTY master, and standard
//! input — and reports each wake here; the machine decides what to do and
//! which descriptors still deserve polling.

use vstd::prelude::*;

verus! {

/// A terminal window size, as rows, columns and pixel dimensions.
#[derive(Debug, Clone, Copy, PartialEq, Eq, Structural)]
pub struct WindowSize {
    pub rows: u16,
    pub cols: u16,
    pub xpixel: u16,
    pub ypixel: u16,
}

/// The size imposed on the PTY: what the caller's terminal reported, or the
/// 30-row, 80-column default when the query failed.
pub fn effective_window_size(queried: Option<WindowSize>) -> (r: WindowSize)
    ensures
        queried matches Some(ws) ==> r == ws,
        queried is None ==> r == (WindowSize { rows: 30, cols: 80, xpixel: 640, ypixel: 480 }),
{
    match queried {
        Some(ws) => ws,
        None => WindowSize { rows: 30, cols: 80, xpixel: 640, ypixel: 480 },
    }
}

/// What the proxy still attends to.
pub struct ProxyState {
    pub pty_open: bool,
    pub stdin_open: bool,
    pub finished: bool,
}

/// One wake of the proxy loop.
pub enum ProxyEvent {
    /// The window-change notification stream is readable.
    WindowChange,
    /// The PTY master is readable; `eof` when the read returned zero bytes.
    PtyInput { eof: bool },
    /// Standard input is readable; `eof` when the read returned zero bytes.
    StdinInput { eof: bool },
}

/// What the caller must do with the bytes of the wake.
pub enum ProxyAction {
    /// Drain the notification and copy the terminal's window size to the PTY.
    SyncWindow,
    /// Write the bytes read from the PTY to standard output and flush.
    ForwardToStdout,
    /// Write the bytes read from standard input to the PTY master.
    ForwardToPty,
    /// Close the writing direction towards the interpreter.
    ClosePtyWrite,
    /// The interpreter has exited: leave the loop.
    Finish,
    /// Nothing to do for this wake.
    Ignore,
}

/// The exact transition table of the proxy.
pub open spec fn spec_step(
    pre: ProxyState,
    post: ProxyState,
    ev: ProxyEvent,
    a: ProxyAction,
) -> bool {
    match ev {
        ProxyEvent::WindowChange => {
            &&& post == pre
            &&& a == if pre.spec_wants_pty() {
                ProxyAction::SyncWindow
            } else {
                ProxyAction::Ignore
            }
        },
        ProxyEvent::PtyInput { eof } => {
            if eof {
                &&& post == (ProxyState { finished: true, ..pre })
                &&& a == ProxyAction::Finish
            } else {
                &&& post == pre
                &&& a == ProxyAction::ForwardToStdout
            }
        },
        ProxyEvent::StdinInput { eof } => {
            if eof {
                &&& post == (ProxyState { stdin_open: false, ..pre })
                &&& a == ProxyAction::ClosePtyWrite
            } else {
                &&& post == pre
                &&& a == if pre.pty_open {
                    ProxyAction::ForwardToPty
                } else {
                    ProxyAction::Ignore
                }
            }
        },
    }
}

impl ProxyState {
    pub open spec fn spec_pty_open(self) -> bool {
        self.pty_open
    }

    pub open spec fn spec_stdin_open(self) -> bool {
        self.stdin_open
    }

    pub open spec fn spec_finished(self) -> bool {
        self.finished
    }

    /// The PTY master is still polled.
    pub open spec fn spec_wants_pty(self) -> bool {
        self.spec_pty_open() && !self.spec_finished()
    }

    /// Standard input is still polled.
    pub open spec fn spec_wants_stdin(self) -> bool {
        self.spec_stdin_open() && !self.spec_finished()
    }

    /// A fresh proxy: both directions open, running.
    pub fn new() -> (r: ProxyState)
        ensures
            r.spec_pty_open(),
            r.spec_stdin_open(),
            !r.spec_finished(),
    {
        ProxyState { pty_open: true, stdin_open: true, finished: false }
    }

    /// Keep looping?
    pub fn running(&self) -> (r: bool)
        ensures
            r == !self.spec_finished(),
    {
        !self.finished
    }

    pub fn wants_pty(&self) -> (r: bool)
        ensures
            r == self.spec_wants_pty(),
    {
        self.pty_open && !self.finished
    }

    pub fn wants_stdin(&self) -> (r: bool)
        ensures
            r == self.spec_wants_stdin(),
    {
        self.stdin_open && !self.finished
    }

    /// Take one wake and decide what to do with it.
    pub fn step(&mut self, ev: ProxyEvent) -> (a: ProxyAction)
        ensures
            spec_step(*old(self), *final(self), ev, a),
            !old(self).spec_stdin_open() ==> !final(self).spec_stdin_open(),
            old(self).spec_finished() ==> final(self).spec_finished(),
    {
        match ev {
            ProxyEvent::WindowChange => {
                if self.pty_open && !self.finished {
                    ProxyAction::SyncWindow
                } else {
                    ProxyAction::Ignore
                }
            },
            ProxyEvent::PtyInput { eof } => {
                if eof {
                    self.finished = true;
                    ProxyAction::Finish
                } else {
                    ProxyAction::ForwardToStdout
                }
            },
            ProxyEvent::StdinInput { eof } => {
                if eof {
                    self.stdin_open = false;
                    ProxyAction::ClosePtyWrite
                } else if self.pty_open {
                    ProxyAction::ForwardToPty
                } else {
                    ProxyAction::Ignore
                }
            },
        }
    }
}

/// Once standard input has reported end-of-file, it is never polled again:
/// the end-of-file step turns `wants_stdin` off, and no later step turns it
/// back on.
pub proof fn lemma_stdin_eof_latched(
    pre: ProxyState,
    post: ProxyState,
    ev: ProxyEvent,
    a: ProxyAction,
)
    requires
        spec_step(pre, post, ev, a),
    ensures
        ev == (ProxyEvent::StdinInput { eof: true }) ==> !post.spec_wants_stdin(),
        !pre.spec_stdin_open() ==> !post.spec_stdin_open() && !post.spec_wants_stdin(),
{
}

} // verus!
