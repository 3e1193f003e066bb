//! The supervisor: tracks spawned interpreter children, reaps their exits
//! into the bounded exit ring, and kills them with graceful escalation.
//!
//! The operating-system work (fork and exec) happens outside; the supervisor
//! is told of each spawn through `note_spawned` and performs its own waits
//! and signals through the trusted wrappers in `os`.

use vstd::prelude::*;

use crate::child_id::ChildId;
use crate::os::{send_signal, sleep_ms, wait_child, WaitEvent};
use crate::ring::{lemma_ring_lookup_some, ring_lookup, ExitInfoRecord};

verus! {

/// How many exits the ring remembers.
pub const EXIT_RING_CAPACITY: usize = 128;

/// How many graceful polls `kill` makes, and how long each pause is: together
/// the two-second graceful window before escalation.
pub const KILL_POLLS: usize = 100;

pub const KILL_POLL_PAUSE_MS: u16 = 20;

#[derive(Debug, Clone, Copy, PartialEq, Eq, Structural)]
pub enum SupervisorError {
    /// No exit is recorded for the child and the operating system no longer
    /// reports it.
    UnknownChild,
    /// Bookkeeping lost the exit entry for a child this supervisor killed.
    MissingExitInfo,
    /// A wait reported a process this supervisor never spawned.
    UnrecognizedPid,
    /// The operating-system wait itself failed.
    WaitFailed,
}

/// The exit code recorded for one wait event, with the pid it concerns: the
/// child's own status for a natural exit, 128 plus the signal number for a
/// death by signal; nothing for events that end no child.
pub open spec fn spec_exit_code_of(ev: crate::os::WaitEvent) -> Option<(i32, int)> {
    match ev {
        WaitEvent::Exited { pid, status } => Some((pid, status as int)),
        WaitEvent::Signaled { pid, signal } => Some((pid, 128 + signal as int)),
        _ => None,
    }
}

/// Classify one wait event into the exit code to record.
pub fn exit_code_of(ev: &WaitEvent) -> (r: Option<(i32, i32)>)
    requires
        crate::os::wait_event_wf(*ev),
    ensures
        r is Some <==> spec_exit_code_of(*ev) is Some,
        r matches Some((pid, code)) ==> spec_exit_code_of(*ev) == Some((pid, code as int)) && 0
            <= code <= 255,
{
    match ev {
        WaitEvent::Exited { pid, status } => Some((*pid, *status)),
        WaitEvent::Signaled { pid, signal } => Some((*pid, 128 + *signal)),
        _ => None,
    }
}

/// The error text reported to a requester.
pub open spec fn spec_message(e: SupervisorError) -> Seq<u8> {
    match e {
        SupervisorError::UnknownChild => crate::text::ascii_of("could not get exit code"@),
        SupervisorError::MissingExitInfo => crate::text::ascii_of("missing exit info"@),
        SupervisorError::UnrecognizedPid => crate::text::ascii_of("unrecognized pid"@),
        SupervisorError::WaitFailed => crate::text::ascii_of("wait failed"@),
    }
}

impl SupervisorError {
    /// Human-readable description, for error responses.
    pub fn message(&self) -> (r: Vec<u8>)
        ensures
            r@ == spec_message(*self),
    {
        match self {
            SupervisorError::UnknownChild => {
                proof {
                    reveal_strlit("could not get exit code");
                }
                crate::text::ascii_bytes("could not get exit code")
            },
            SupervisorError::MissingExitInfo => {
                proof {
                    reveal_strlit("missing exit info");
                }
                crate::text::ascii_bytes("missing exit info")
            },
            SupervisorError::UnrecognizedPid => {
                proof {
                    reveal_strlit("unrecognized pid");
                }
                crate::text::ascii_bytes("unrecognized pid")
            },
            SupervisorError::WaitFailed => {
                proof {
                    reveal_strlit("wait failed");
                }
                crate::text::ascii_bytes("wait failed")
            },
        }
    }
}

/// Tracks running children (`os pid -> seq`), hands out strictly increasing
/// sequence numbers, and aggregates exit codes.
pub struct Supervisor {
    next_child_id: u32,
    running_children: Vec<(i32, u32)>,
    exit_info: ExitInfoRecord,
    spawned: Ghost<Seq<u32>>,
}

impl Supervisor {
    /// Running children as `(os pid, seq)` pairs, oldest spawn first.
    pub closed spec fn running(self) -> Seq<(i32, u32)> {
        self.running_children@
    }

    /// Every exit ever recorded, in reaping order.
    pub closed spec fn exit_history(self) -> Seq<(u32, i32)> {
        self.exit_info.history()
    }

    /// The exits currently held by the ring.
    pub closed spec fn exit_entries(self) -> Seq<(u32, i32)> {
        self.exit_info.entries()
    }

    pub closed spec fn capacity(self) -> nat {
        self.exit_info.capacity()
    }

    /// The next sequence number to be issued.
    pub closed spec fn next_seq(self) -> u32 {
        self.next_child_id
    }

    /// Every sequence number ever issued, in issuing order.
    pub closed spec fn issued(self) -> Seq<u32> {
        self.spawned@
    }

    /// Is a child with this os pid still tracked as running?
    pub open spec fn is_running_pid(self, pid: i32) -> bool {
        exists|i: int| 0 <= i < self.running().len() && (#[trigger] self.running()[i]).0 == pid
    }

    /// Is a child with this sequence number still tracked as running?
    pub open spec fn is_running_seq(self, seq_no: u32) -> bool {
        exists|i: int| 0 <= i < self.running().len() && (#[trigger] self.running()[i]).1 == seq_no
    }

    /// Does this supervisor track the child `p`?
    pub open spec fn tracks_pair(self, p: (i32, u32)) -> bool {
        exists|j: int| 0 <= j < self.running().len() && #[trigger] self.running()[j] == p
    }

    pub closed spec fn wf(self) -> bool {
        let r = self.running_children@;
        let h = self.exit_info.history();
        &&& self.exit_info.wf()
        &&& self.next_child_id >= 1
        &&& self.spawned@.len() == self.next_child_id - 1
        &&& (forall|i: int| 0 <= i < self.spawned@.len() ==> #[trigger] self.spawned@[i] == i + 1)
        &&& (forall|i: int|
            0 <= i < r.len() ==> (#[trigger] r[i]).0 > 0 && 1 <= r[i].1 < self.next_child_id)
        &&& (forall|i: int, j: int|
            0 <= i < j < r.len() ==> (#[trigger] r[i]).0 != (#[trigger] r[j]).0)
        &&& (forall|i: int, j: int|
            0 <= i < j < r.len() ==> (#[trigger] r[i]).1 != (#[trigger] r[j]).1)
        &&& (forall|k: int|
            0 <= k < h.len() ==> 1 <= (#[trigger] h[k]).0 < self.next_child_id && 0 <= h[k].1
                <= 255)
        &&& (forall|k1: int, k2: int|
            0 <= k1 < k2 < h.len() ==> (#[trigger] h[k1]).0 != (#[trigger] h[k2]).0)
        &&& (forall|i: int, k: int|
            0 <= i < r.len() && 0 <= k < h.len() ==> (#[trigger] r[i]).1 != (#[trigger] h[k]).0)
    }

    pub fn new() -> (r: Supervisor)
        ensures
            r.wf(),
            r.next_seq() == 1,
            r.running() == Seq::<(i32, u32)>::empty(),
            r.exit_history() == Seq::<(u32, i32)>::empty(),
            r.issued() == Seq::<u32>::empty(),
            r.capacity() == EXIT_RING_CAPACITY,
    {
        Supervisor {
            next_child_id: 1,
            running_children: Vec::new(),
            exit_info: ExitInfoRecord::new(EXIT_RING_CAPACITY),
            spawned: Ghost(Seq::empty()),
        }
    }

    /// Record a spawn the caller just performed: issue the next sequence
    /// number and track the child as running.
    pub fn note_spawned(&mut self, pid: i32) -> (seq_no: u32)
        requires
            old(self).wf(),
            old(self).next_seq() < u32::MAX,
            pid > 0,
            !old(self).is_running_pid(pid),
        ensures
            final(self).wf(),
            seq_no == old(self).next_seq(),
            final(self).next_seq() == old(self).next_seq() + 1,
            final(self).running() == old(self).running().push((pid, seq_no)),
            final(self).issued() == old(self).issued().push(seq_no),
            final(self).exit_history() == old(self).exit_history(),
            final(self).exit_entries() == old(self).exit_entries(),
            final(self).capacity() == old(self).capacity(),
    {
        let seq_no = self.next_child_id;
        self.running_children.push((pid, seq_no));
        self.next_child_id = self.next_child_id + 1;
        proof {
            self.spawned@ = self.spawned@.push(seq_no);
            let r = self.running_children@;
            assert forall|i: int, j: int| 0 <= i < j < r.len() implies (#[trigger] r[i]).0 != (
            #[trigger] r[j]).0 by {
                if j == r.len() - 1 {
                    assert(!old(self).is_running_pid(pid) ==> old(self).running()[i].0 != pid);
                }
            }
        }
        seq_no
    }

    /// Record one reaped exit: drop the child from the running set and store
    /// its exit code in the ring.
    #[verifier::loop_isolation(false)]
    fn child_exit(&mut self, pid: i32, exit_code: i32) -> (r: Result<(), SupervisorError>)
        requires
            old(self).wf(),
            0 <= exit_code <= 255,
        ensures
            final(self).wf(),
            r is Ok <==> old(self).is_running_pid(pid),
            r is Ok ==> exists|i: int|
                {
                    &&& 0 <= i < old(self).running().len()
                    &&& (#[trigger] old(self).running()[i]).0 == pid
                    &&& final(self).running() == old(self).running().remove(i)
                    &&& final(self).exit_history() == old(self).exit_history().push(
                        (old(self).running()[i].1, exit_code),
                    )
                },
            r is Err ==> *final(self) == *old(self),
            r matches Err(e) ==> e is UnrecognizedPid,
            final(self).next_seq() == old(self).next_seq(),
            final(self).issued() == old(self).issued(),
            final(self).capacity() == old(self).capacity(),
            old(self).exit_history().is_prefix_of(final(self).exit_history()),
            final(self).running().len() <= old(self).running().len(),
            r is Ok ==> final(self).running().len() < old(self).running().len(),
            running_within(*final(self), *old(self)),
            new_exits_from_running(*final(self), *old(self)),
    {
        let mut i: usize = 0;
        while i < self.running_children.len()
            invariant
                0 <= i <= self.running_children@.len(),
                *self == *old(self),
                forall|j: int|
                    0 <= j < i ==> (#[trigger] self.running_children@[j]).0 != pid,
            decreases self.running_children@.len() - i,
        {
            if self.running_children[i].0 == pid {
                let seq_no = self.running_children[i].1;
                self.running_children.remove(i);
                self.exit_info.set(seq_no, exit_code);
                proof {
                    let r_old = old(self).running();
                    let r_new = self.running_children@;
                    assert(r_new =~= r_old.remove(i as int));
                    assert forall|a: int, b: int| 0 <= a < b < r_new.len() implies (
                    #[trigger] r_new[a]).0 != (#[trigger] r_new[b]).0 by {
                        let a0 = if a < i { a } else { a + 1 };
                        let b0 = if b < i { b } else { b + 1 };
                        assert(r_new[a] == r_old[a0] && r_new[b] == r_old[b0]);
                    }
                    assert forall|a: int, b: int| 0 <= a < b < r_new.len() implies (
                    #[trigger] r_new[a]).1 != (#[trigger] r_new[b]).1 by {
                        let a0 = if a < i { a } else { a + 1 };
                        let b0 = if b < i { b } else { b + 1 };
                        assert(r_new[a] == r_old[a0] && r_new[b] == r_old[b0]);
                    }
                    let h_new = self.exit_info.history();
                    let h_old = old(self).exit_history();
                    assert forall|k1: int, k2: int| 0 <= k1 < k2 < h_new.len() implies (
                    #[trigger] h_new[k1]).0 != (#[trigger] h_new[k2]).0 by {
                        if k2 == h_new.len() - 1 {
                            assert(r_old[i as int].1 != h_old[k1].0);
                        }
                    }
                    assert forall|a: int, k: int|
                        0 <= a < r_new.len() && 0 <= k < h_new.len() implies (
                    #[trigger] r_new[a]).1 != (#[trigger] h_new[k]).0 by {
                        let a0 = if a < i { a } else { a + 1 };
                        assert(r_new[a] == r_old[a0]);
                        if k == h_new.len() - 1 {
                            assert(r_old[a0].1 != r_old[i as int].1);
                        }
                    }
                    assert(old(self).is_running_pid(pid));
                    assert forall|a: int| 0 <= a < r_new.len() implies old(self).tracks_pair(
                        #[trigger] r_new[a],
                    ) by {
                        let a0 = if a < i {
                            a
                        } else {
                            a + 1
                        };
                        assert(r_new[a] == r_old[a0]);
                    }
                    assert((old(self).running()[i as int]).1 == r_old[i as int].1);
                    assert(old(self).is_running_seq(r_old[i as int].1));
                    assert forall|k: int|
                        old(self).exit_history().len() <= k < self.exit_history().len() implies old(
                        self,
                    ).is_running_seq((#[trigger] self.exit_history()[k]).0) by {
                        assert(self.exit_history()[k] == (r_old[i as int].1, exit_code));
                    }
                }
                return Ok(());
            }
            i = i + 1;
        }
        proof {
            if old(self).is_running_pid(pid) {
                let j = choose|j: int|
                    0 <= j < old(self).running().len() && (#[trigger] old(self).running()[j]).0
                        == pid;
                assert(false);
            }
            lemma_running_within_refl(*self);
            lemma_new_exits_refl(*self);
        }
        Err(SupervisorError::UnrecognizedPid)
    }

    /// Reap until the operating system has nothing further to report for the
    /// requested scope, recording every ended child.
    #[verifier::loop_isolation(false)]
    fn wait(&mut self, target: Option<i32>, nohang: bool) -> (r: Result<(), SupervisorError>)
        requires
            old(self).wf(),
            target matches Some(t) ==> t > 0,
        ensures
            final(self).wf(),
            old(self).exit_history().is_prefix_of(final(self).exit_history()),
            final(self).next_seq() == old(self).next_seq(),
            final(self).issued() == old(self).issued(),
            final(self).capacity() == old(self).capacity(),
            r matches Err(e) ==> e is UnrecognizedPid || e is WaitFailed,
            running_within(*final(self), *old(self)),
            new_exits_from_running(*final(self), *old(self)),
    {
        proof {
            lemma_running_within_refl(*self);
            lemma_new_exits_refl(*self);
        }
        loop
            invariant
                self.wf(),
                target matches Some(t) ==> t > 0,
                old(self).exit_history().is_prefix_of(self.exit_history()),
                self.next_seq() == old(self).next_seq(),
                self.issued() == old(self).issued(),
                self.capacity() == old(self).capacity(),
                running_within(*self, *old(self)),
                new_exits_from_running(*self, *old(self)),
            decreases self.running().len(),
        {
            let ev = wait_child(target, nohang);
            match exit_code_of(&ev) {
                Some((pid, code)) => {
                    if pid <= 0 {
                        return Err(SupervisorError::UnrecognizedPid);
                    }
                    let ghost mid = *self;
                    match self.child_exit(pid, code) {
                        Ok(()) => {
                            proof {
                                lemma_running_within_trans(*old(self), mid, *self);
                                lemma_new_exits_compose(*old(self), mid, *self);
                            }
                        },
                        Err(e) => {
                            return Err(e);
                        },
                    }
                },
                None => {
                    match ev {
                        WaitEvent::Failed => {
                            return Err(SupervisorError::WaitFailed);
                        },
                        _ => {
                            break;
                        },
                    }
                },
            }
        }
        Ok(())
    }

    /// Called when the child-signal stream wakes: reap without blocking.
    pub fn handle_sigchld(&mut self) -> (r: Result<(), SupervisorError>)
        requires
            old(self).wf(),
        ensures
            final(self).wf(),
            old(self).exit_history().is_prefix_of(final(self).exit_history()),
            final(self).next_seq() == old(self).next_seq(),
            final(self).issued() == old(self).issued(),
            final(self).capacity() == old(self).capacity(),
            running_within(*final(self), *old(self)),
            new_exits_from_running(*final(self), *old(self)),
    {
        self.wait(None, true)
    }

    /// Exit code of a child: the recorded code if present, else block until
    /// the child ends and its code is recorded.
    pub fn get_exit_code(&mut self, child_id: ChildId) -> (r: Result<i32, SupervisorError>)
        requires
            old(self).wf(),
            child_id.pid > 0,
        ensures
            final(self).wf(),
            old(self).exit_history().is_prefix_of(final(self).exit_history()),
            final(self).next_seq() == old(self).next_seq(),
            final(self).issued() == old(self).issued(),
            final(self).capacity() == old(self).capacity(),
            r matches Ok(c) ==> ring_lookup(final(self).exit_entries(), child_id.id) == Some(c),
            r == Err::<i32, SupervisorError>(SupervisorError::UnknownChild) ==> ring_lookup(
                final(self).exit_entries(),
                child_id.id,
            ) is None,
            ring_lookup(old(self).exit_entries(), child_id.id) matches Some(c) ==> r == Ok::<
                i32,
                SupervisorError,
            >(c) && *final(self) == *old(self),
            r matches Err(e) ==> e is UnknownChild || e is UnrecognizedPid || e is WaitFailed,
            r is Err ==> ring_lookup(old(self).exit_entries(), child_id.id) is None,
            running_within(*final(self), *old(self)),
            new_exits_from_running(*final(self), *old(self)),
    {
        if let Some(code) = self.exit_info.get(child_id.id) {
            proof {
                lemma_running_within_refl(*self);
                lemma_new_exits_refl(*self);
            }
            return Ok(code);
        }
        match self.wait(Some(child_id.pid), false) {
            Ok(()) => {},
            Err(e) => {
                return Err(e);
            },
        }
        if let Some(code) = self.exit_info.get(child_id.id) {
            return Ok(code);
        }
        Err(SupervisorError::UnknownChild)
    }

    /// Kill a child with graceful escalation: SIGTERM, then a poll-reap every
    /// 20 ms for up to 2 s, then SIGKILL with a blocking reap. Returns the
    /// recorded exit code; an already-exited child just reports its stored
    /// code.
    #[verifier::loop_isolation(false)]
    pub fn kill(&mut self, child_id: &ChildId) -> (r: Result<i32, SupervisorError>)
        requires
            old(self).wf(),
            child_id.pid > 0,
        ensures
            final(self).wf(),
            old(self).exit_history().is_prefix_of(final(self).exit_history()),
            final(self).next_seq() == old(self).next_seq(),
            final(self).issued() == old(self).issued(),
            final(self).capacity() == old(self).capacity(),
            r matches Ok(c) ==> ring_lookup(final(self).exit_entries(), child_id.id) == Some(c),
            r == Err::<i32, SupervisorError>(SupervisorError::MissingExitInfo) ==> ring_lookup(
                final(self).exit_entries(),
                child_id.id,
            ) is None,
            !old(self).is_running_pid(child_id.pid) && (ring_lookup(
                old(self).exit_entries(),
                child_id.id,
            ) is Some) ==> *final(self) == *old(self) && (ring_lookup(
                old(self).exit_entries(),
                child_id.id,
            ) matches Some(c) ==> r == Ok::<i32, SupervisorError>(c)),
            r matches Err(e) ==> e is MissingExitInfo || e is UnrecognizedPid || e is WaitFailed,
            r is Ok ==> !final(self).is_running_seq(child_id.id),
            running_within(*final(self), *old(self)),
            new_exits_from_running(*final(self), *old(self)),
    {
        let mut found = false;
        let mut i: usize = 0;
        while i < self.running_children.len()
            invariant
                0 <= i <= self.running_children@.len(),
                *self == *old(self),
                found <==> exists|j: int|
                    0 <= j < i && (#[trigger] self.running_children@[j]).0 == child_id.pid,
            decreases self.running_children@.len() - i,
        {
            if self.running_children[i].0 == child_id.pid {
                found = true;
            }
            i = i + 1;
        }
        proof {
            if found {
                let j = choose|j: int|
                    0 <= j < self.running_children@.len() && (
                    #[trigger] self.running_children@[j]).0 == child_id.pid;
                assert((old(self).running()[j]).0 == child_id.pid);
                assert(old(self).is_running_pid(child_id.pid));
            }
        }
        if found {
            send_signal(child_id.pid, false);
            let mut polls: usize = 0;
            let mut done = false;
            proof {
                lemma_running_within_refl(*self);
                lemma_new_exits_refl(*self);
            }
            while polls < KILL_POLLS && !done
                invariant
                    self.wf(),
                    polls <= KILL_POLLS,
                    old(self).exit_history().is_prefix_of(self.exit_history()),
                    self.next_seq() == old(self).next_seq(),
                    self.issued() == old(self).issued(),
                    self.capacity() == old(self).capacity(),
                    running_within(*self, *old(self)),
                    new_exits_from_running(*self, *old(self)),
                decreases
                        (if done {
                            0int
                        } else {
                            1int
                        }),
                        KILL_POLLS - polls,
            {
                let ghost mid = *self;
                match self.wait(Some(child_id.pid), true) {
                    Ok(()) => {
                        proof {
                            lemma_running_within_trans(*old(self), mid, *self);
                            lemma_new_exits_compose(*old(self), mid, *self);
                        }
                    },
                    Err(e) => {
                        proof {
                            lemma_running_within_trans(*old(self), mid, *self);
                            lemma_new_exits_compose(*old(self), mid, *self);
                        }
                        return Err(e);
                    },
                }
                if self.exit_info.get(child_id.id).is_some() {
                    done = true;
                } else {
                    sleep_ms(KILL_POLL_PAUSE_MS);
                    polls = polls + 1;
                }
            }
            if self.exit_info.get(child_id.id).is_none() {
                send_signal(child_id.pid, true);
                let ghost mid = *self;
                match self.wait(Some(child_id.pid), false) {
                    Ok(()) => {
                        proof {
                            lemma_running_within_trans(*old(self), mid, *self);
                            lemma_new_exits_compose(*old(self), mid, *self);
                        }
                    },
                    Err(e) => {
                        proof {
                            lemma_running_within_trans(*old(self), mid, *self);
                            lemma_new_exits_compose(*old(self), mid, *self);
                        }
                        return Err(e);
                    },
                }
            }
        } else {
            proof {
                lemma_running_within_refl(*self);
                lemma_new_exits_refl(*self);
            }
        }
        match self.exit_info.get(child_id.id) {
            Some(code) => {
                proof {
                    lemma_recorded_not_running(*self, child_id.id);
                }
                Ok(code)
            },
            None => Err(SupervisorError::MissingExitInfo),
        }
    }

    /// Is a child with this os pid still tracked as running?
    pub fn is_running(&self, pid: i32) -> (r: bool)
        ensures
            r == self.is_running_pid(pid),
    {
        let mut i: usize = 0;
        while i < self.running_children.len()
            invariant
                0 <= i <= self.running_children@.len(),
                forall|j: int|
                    0 <= j < i ==> (#[trigger] self.running_children@[j]).0 != pid,
            decreases self.running_children@.len() - i,
        {
            if self.running_children[i].0 == pid {
                proof {
                    assert((self.running()[i as int]).0 == pid);
                }
                return true;
            }
            i = i + 1;
        }
        proof {
            if self.is_running_pid(pid) {
                let j = choose|j: int|
                    0 <= j < self.running().len() && (#[trigger] self.running()[j]).0 == pid;
                assert(false);
            }
        }
        false
    }

    /// The next sequence number, as a value.
    pub fn next_seq_value(&self) -> (r: u32)
        ensures
            r == self.next_seq(),
    {
        self.next_child_id
    }

    /// The recorded exit code of a child, without waiting.
    pub fn lookup_exit_code(&self, seq_no: u32) -> (r: Option<i32>)
        requires
            self.wf(),
        ensures
            r == ring_lookup(self.exit_entries(), seq_no),
    {
        self.exit_info.get(seq_no)
    }

    /// Kill every child still tracked as running; failures are ignored, as
    /// the process is shutting down.
    #[verifier::loop_isolation(false)]
    pub fn shutdown(&mut self)
        requires
            old(self).wf(),
        ensures
            final(self).wf(),
            old(self).exit_history().is_prefix_of(final(self).exit_history()),
            final(self).next_seq() == old(self).next_seq(),
            final(self).issued() == old(self).issued(),
            final(self).capacity() == old(self).capacity(),
            running_within(*final(self), *old(self)),
            new_exits_from_running(*final(self), *old(self)),
    {
        let mut ids: Vec<ChildId> = Vec::new();
        let mut i: usize = 0;
        while i < self.running_children.len()
            invariant
                0 <= i <= self.running_children@.len(),
                *self == *old(self),
                forall|j: int| 0 <= j < ids@.len() ==> (#[trigger] ids@[j]).pid > 0,
            decreases self.running_children@.len() - i,
        {
            let pid = self.running_children[i].0;
            let seq_no = self.running_children[i].1;
            ids.push(ChildId { id: seq_no, pid });
            i = i + 1;
        }
        let mut j: usize = 0;
        proof {
            lemma_running_within_refl(*self);
            lemma_new_exits_refl(*self);
        }
        while j < ids.len()
            invariant
                self.wf(),
                forall|k: int| 0 <= k < ids@.len() ==> (#[trigger] ids@[k]).pid > 0,
                old(self).exit_history().is_prefix_of(self.exit_history()),
                self.next_seq() == old(self).next_seq(),
                self.issued() == old(self).issued(),
                self.capacity() == old(self).capacity(),
                running_within(*self, *old(self)),
                new_exits_from_running(*self, *old(self)),
            decreases ids@.len() - j,
        {
            let target = ids[j];
            let ghost mid = *self;
            let _ = self.kill(&target);
            proof {
                lemma_running_within_trans(*old(self), mid, *self);
                lemma_new_exits_compose(*old(self), mid, *self);
            }
            j = j + 1;
        }
    }
}

/// Sequence numbers are issued strictly increasing; none is ever reused.
pub proof fn lemma_issued_strictly_increasing(s: Supervisor)
    requires
        s.wf(),
    ensures
        forall|i: int, j: int|
            0 <= i < j < s.issued().len() ==> s.issued()[i] < s.issued()[j],
{
}

/// `post` tracks no child that `pre` did not: waiting and killing only ever
/// remove children from the running set.
pub open spec fn running_within(post: Supervisor, pre: Supervisor) -> bool {
    forall|i: int|
        0 <= i < post.running().len() ==> pre.tracks_pair(#[trigger] post.running()[i])
}

/// Whatever `post` recorded beyond `pre` is the exit of a child that `pre`
/// still tracked as running: reaping invents no exits.
pub open spec fn new_exits_from_running(post: Supervisor, pre: Supervisor) -> bool {
    &&& pre.exit_history().is_prefix_of(post.exit_history())
    &&& forall|k: int|
        pre.exit_history().len() <= k < post.exit_history().len() ==> pre.is_running_seq(
            (#[trigger] post.exit_history()[k]).0,
        )
}

proof fn lemma_running_within_refl(s: Supervisor)
    ensures
        running_within(s, s),
{
    assert forall|i: int| 0 <= i < s.running().len() implies s.tracks_pair(
        #[trigger] s.running()[i],
    ) by {
        assert(s.running()[i] == s.running()[i]);
    }
}

/// A sequence number with a recorded exit is no longer running: the running
/// set and the history never share one.
proof fn lemma_recorded_not_running(s: Supervisor, seq_no: u32)
    requires
        s.wf(),
        ring_lookup(s.exit_entries(), seq_no) is Some,
    ensures
        !s.is_running_seq(seq_no),
{
    lemma_ring_lookup_some(s.exit_entries(), seq_no);
    let c = ring_lookup(s.exit_entries(), seq_no)->Some_0;
    let i = choose|i: int|
        0 <= i < s.exit_entries().len() && s.exit_entries()[i] == (seq_no, c);
    s.exit_info.lemma_entries_recorded(i);
    let k = choose|k: int|
        0 <= k < s.exit_history().len() && s.exit_history()[k] == s.exit_entries()[i];
    if s.is_running_seq(seq_no) {
        let j = choose|j: int|
            0 <= j < s.running().len() && (#[trigger] s.running()[j]).1 == seq_no;
        assert((s.running()[j]).1 == (s.exit_history()[k]).0);
        assert(false);
    }
}

proof fn lemma_new_exits_refl(s: Supervisor)
    ensures
        new_exits_from_running(s, s),
{
    assert(s.exit_history().subrange(0, s.exit_history().len() as int) =~= s.exit_history());
}

proof fn lemma_running_within_trans(a: Supervisor, b: Supervisor, c: Supervisor)
    requires
        running_within(c, b),
        running_within(b, a),
    ensures
        running_within(c, a),
{
    assert forall|i: int| 0 <= i < c.running().len() implies a.tracks_pair(
        #[trigger] c.running()[i],
    ) by {
        let p = c.running()[i];
        let j = choose|j: int| 0 <= j < b.running().len() && #[trigger] b.running()[j] == p;
        assert(a.tracks_pair(b.running()[j]));
    }
}

proof fn lemma_new_exits_compose(a: Supervisor, b: Supervisor, c: Supervisor)
    requires
        new_exits_from_running(b, a),
        new_exits_from_running(c, b),
        running_within(b, a),
    ensures
        new_exits_from_running(c, a),
{
    let ha = a.exit_history();
    let hb = b.exit_history();
    let hc = c.exit_history();
    assert forall|t: int| 0 <= t < hb.len() implies hc[t] == hb[t] by {
        assert(hb[t] == hc.subrange(0, hb.len() as int)[t]);
    }
    assert forall|t: int| 0 <= t < ha.len() implies hb[t] == ha[t] by {
        assert(ha[t] == hb.subrange(0, ha.len() as int)[t]);
    }
    assert(hc.subrange(0, ha.len() as int) =~= ha);
    assert forall|k: int| ha.len() <= k < hc.len() implies a.is_running_seq(
        (#[trigger] hc[k]).0,
    ) by {
        if k < hb.len() {
            assert(hc[k] == hb[k]);
            assert(a.is_running_seq(hb[k].0));
        } else {
            assert(b.is_running_seq(hc[k].0));
            let i = choose|i: int|
                0 <= i < b.running().len() && (#[trigger] b.running()[i]).1 == hc[k].0;
            let j = choose|j: int|
                0 <= j < a.running().len() && #[trigger] a.running()[j] == b.running()[i];
            assert((a.running()[j]).1 == hc[k].0);
        }
    }
}

/// Every recorded exit belongs to a sequence number this supervisor issued:
/// the ring never reports a child that was not tracked.
pub proof fn lemma_exits_are_issued(s: Supervisor, k: int)
    requires
        s.wf(),
        0 <= k < s.exit_history().len(),
    ensures
        exists|i: int|
            0 <= i < s.issued().len() && #[trigger] s.issued()[i] == s.exit_history()[k].0,
{
    let seq_no = s.exit_history()[k].0;
    assert(s.issued()[seq_no - 1] == seq_no);
}

/// Every code the ring reports was recorded by the classifier, so it lies in
/// the unix exit-code range: the status itself, or 128 plus a signal number.
pub proof fn lemma_recorded_code_in_range(s: Supervisor, seq_no: u32, c: i32)
    requires
        s.wf(),
        ring_lookup(s.exit_entries(), seq_no) == Some(c),
    ensures
        0 <= c <= 255,
{
    lemma_ring_lookup_some(s.exit_entries(), seq_no);
    let i = choose|i: int|
        0 <= i < s.exit_entries().len() && s.exit_entries()[i] == (seq_no, c);
    s.exit_info.lemma_entries_recorded(i);
}

/// An exit the supervisor ever recorded stays visible in the ring until at
/// least `capacity` newer exits have been recorded.
pub proof fn lemma_recent_exit_visible(s: Supervisor, k: int)
    requires
        s.wf(),
        0 <= k < s.exit_history().len(),
        s.exit_history().len() - k <= s.capacity(),
    ensures
        ring_lookup(s.exit_entries(), s.exit_history()[k].0) == Some(s.exit_history()[k].1),
{
    let h = s.exit_history();
    let id = h[k].0;
    s.exit_info.lemma_recent_exit_recorded(k);
    let i = choose|i: int| 0 <= i < s.exit_entries().len() && s.exit_entries()[i] == h[k];
    lemma_ring_lookup_some(s.exit_entries(), id);
    assert(s.exit_entries()[i].0 == id);
    let c = ring_lookup(s.exit_entries(), id)->Some_0;
    let i2 = choose|i2: int|
        0 <= i2 < s.exit_entries().len() && s.exit_entries()[i2] == (id, c);
    s.exit_info.lemma_entries_recorded(i2);
    let k2 = choose|k2: int| 0 <= k2 < h.len() && h[k2] == (id, c);
    assert(h[k2].0 == h[k].0);
    assert(k2 == k);
}

} // verus!
