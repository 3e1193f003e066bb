//! The pid-file single-instance protocol. The file itself is published with
//! a write-fsync-hard-link sequence whose atomicity the file system gives;
//! this module holds the decisions around it — what counts as a live owner,
//! when a stale file is discarded, when acquisition must be refused — over a
//! model of the published path.

use vstd::prelude::*;

use crate::text::{dec_value, is_digits, parse_u32, spec_trim, trim_bytes};

verus! {

/// The token of a successful acquisition; releasing it removes the file.
pub struct PidFileGuard {
    pid: i32,
}

impl PidFileGuard {
    /// The pid written into the published file.
    pub closed spec fn spec_pid(self) -> i32 {
        self.pid
    }

    pub fn pid(&self) -> (r: i32)
        ensures
            r == self.spec_pid(),
    {
        self.pid
    }
}

/// What the published pid-file path holds: the pid it names, if the file
/// exists. The caller keeps it in step with the real path: reads become
/// `test`, the link-publish becomes `acquire`, the unlink becomes `release`.
pub struct PidFile {
    occupant: Option<i32>,
}

/// Outcome of `test`, after discarding a stale file.
pub open spec fn spec_test(pre: Option<i32>, alive: bool) -> (Option<i32>, Option<i32>) {
    match pre {
        Some(p) => if alive {
            (Some(p), Some(p))
        } else {
            (None, None)
        },
        None => (None, None),
    }
}

/// Outcome of `acquire`: the new file state and who holds the path.
pub open spec fn spec_acquire(pre: Option<i32>, pid: i32, alive: bool) -> (
    Option<i32>,
    Result<i32, i32>,
) {
    match pre {
        Some(p) => if alive {
            (Some(p), Err(p))
        } else {
            (Some(pid), Ok(pid))
        },
        None => (Some(pid), Ok(pid)),
    }
}

impl PidFile {
    pub closed spec fn spec_occupant(self) -> Option<i32> {
        self.occupant
    }

    /// A path in the given state.
    pub fn new(occupant: Option<i32>) -> (r: PidFile)
        ensures
            r.spec_occupant() == occupant,
    {
        PidFile { occupant }
    }

    /// Read the path: a live owner is reported, a stale file is unlinked.
    /// `occupant_alive` is what delivering the null signal to the named pid
    /// showed.
    pub fn test(&mut self, occupant_alive: bool) -> (r: Option<i32>)
        ensures
            ({
                let (post, reported) = spec_test(old(self).spec_occupant(), occupant_alive);
                final(self).spec_occupant() == post && r == reported
            }),
    {
        match self.occupant {
            Some(p) => {
                if occupant_alive {
                    Some(p)
                } else {
                    self.occupant = None;
                    None
                }
            },
            None => None,
        }
    }

    /// Publish our pid, unless a live owner already holds the path.
    pub fn acquire(&mut self, pid: i32, occupant_alive: bool) -> (r: Result<PidFileGuard, i32>)
        ensures
            ({
                let (post, outcome) = spec_acquire(old(self).spec_occupant(), pid, occupant_alive);
                &&& final(self).spec_occupant() == post
                &&& (r matches Ok(g) ==> outcome == Ok::<i32, i32>(g.spec_pid()) && g.spec_pid()
                    == pid)
                &&& (r matches Err(p) ==> outcome == Err::<i32, i32>(p))
                &&& (r is Ok <==> outcome is Ok)
            }),
    {
        match self.test(occupant_alive) {
            Some(p) => Err(p),
            None => {
                self.occupant = Some(pid);
                Ok(PidFileGuard { pid })
            },
        }
    }

    /// Remove the published file.
    pub fn release(&mut self, guard: PidFileGuard) -> (r: i32)
        ensures
            final(self).spec_occupant() is None,
            r == guard.spec_pid(),
    {
        self.occupant = None;
        guard.pid
    }
}

/// The guard is single-instance: of two acquisitions in either order, the
/// second cannot succeed while the first acquirer is alive; it observes the
/// first one's pid as already running.
pub proof fn lemma_single_instance(pre: Option<i32>, pid1: i32, pid2: i32, alive1: bool)
    requires
        spec_acquire(pre, pid1, alive1).1 is Ok,
    ensures
        spec_acquire(spec_acquire(pre, pid1, alive1).0, pid2, true).1 == Err::<i32, i32>(pid1),
{
}

/// Parse the single line of a pid file: a decimal pid, surrounding
/// whitespace ignored. Rejects anything that is not a positive pid.
pub fn parse_pid_line(contents: &[u8]) -> (r: Option<i32>)
    ensures
        ({
            let t = spec_trim(contents@);
            &&& (r is Some <==> t.len() >= 1 && is_digits(t) && 1 <= dec_value(t) <= i32::MAX)
            &&& (r matches Some(p) ==> p == dec_value(t))
        }),
{
    let t = trim_bytes(contents);
    match parse_u32(t) {
        Some(v) if 1 <= v && v <= 0x7FFF_FFFF => Some(v as i32),
        _ => None,
    }
}

} // verus!
