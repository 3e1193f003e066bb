//! The server's core state: the supervisor, the one hot-spare slot, and the
//! stored prelude. The event loop around it (socket, poll, signal streams)
//! performs I/O only; every decision and every bookkeeping step is here.

use vstd::prelude::*;

use crate::child_id::{child_id_wf, ChildId};
use crate::ring::ring_lookup;
use crate::supervisor::{new_exits_from_running, running_within, Supervisor, SupervisorError};

verus! {

/// The server's state between connections.
pub struct ServerCore {
    supervisor: Supervisor,
    current_interpreter: Option<ChildId>,
    prelude_code: Option<Vec<u8>>,
}

impl ServerCore {
    /// The identity of the hot spare, if the slot is filled.
    pub closed spec fn spare(self) -> Option<ChildId> {
        self.current_interpreter
    }

    /// The stored prelude.
    pub closed spec fn prelude_text(self) -> Option<Seq<u8>> {
        match self.prelude_code {
            Some(p) => Some(p@),
            None => None,
        }
    }

    pub closed spec fn sup(self) -> Supervisor {
        self.supervisor
    }

    pub closed spec fn wf(self) -> bool {
        &&& self.supervisor.wf()
        &&& (self.current_interpreter matches Some(id) ==> child_id_wf(id) && id.pid > 0)
    }

    /// A fresh server: empty slot, no prelude; the first spawn fills the slot
    /// before the loop serves.
    pub fn new() -> (r: ServerCore)
        ensures
            r.wf(),
            r.spare() is None,
            r.prelude_text() is None,
            r.sup().next_seq() == 1,
            r.sup().running() == Seq::<(i32, u32)>::empty(),
            r.sup().issued() == Seq::<u32>::empty(),
            r.sup().exit_history() == Seq::<(u32, i32)>::empty(),
    {
        ServerCore {
            supervisor: Supervisor::new(),
            current_interpreter: None,
            prelude_code: None,
        }
    }

    /// Must the caller spawn a fresh interpreter before the next handoff?
    pub fn needs_spawn(&self) -> (r: bool)
        ensures
            r == (self.spare() is None),
    {
        self.current_interpreter.is_none()
    }

    /// The prelude the next spawn must inject.
    pub fn prelude(&self) -> (r: &Option<Vec<u8>>)
        ensures
            r is Some <==> self.prelude_text() is Some,
            r matches Some(p) ==> Some(p@) == self.prelude_text(),
    {
        &self.prelude_code
    }

    /// Is a child with this os pid still tracked as running?
    pub fn tracks_pid(&self, pid: i32) -> (r: bool)
        ensures
            r == self.sup().is_running_pid(pid),
    {
        self.supervisor.is_running(pid)
    }

    /// Whether the next sequence number can still be issued.
    pub fn can_spawn(&self) -> (r: bool)
        ensures
            r == (self.sup().next_seq() < u32::MAX),
    {
        self.supervisor.next_seq_value() < u32::MAX
    }

    /// Record a successful spawn: the new child fills the hot-spare slot.
    pub fn note_spawned(&mut self, pid: i32) -> (id: ChildId)
        requires
            old(self).wf(),
            old(self).spare() is None,
            old(self).sup().next_seq() < u32::MAX,
            pid > 0,
            !old(self).sup().is_running_pid(pid),
        ensures
            final(self).wf(),
            spec_note_spawned(*old(self), *final(self), pid, id),
    {
        let seq_no = self.supervisor.note_spawned(pid);
        let id = ChildId { id: seq_no, pid };
        self.current_interpreter = Some(id);
        id
    }

    /// `INIT`: store the new prelude and kill the current hot spare. The
    /// caller then spawns the replacement and reports it through
    /// `note_spawned`; a kill failure is surfaced to the requester.
    ///
    /// An empty slot succeeds with the supervisor untouched; with a spare in
    /// the slot, success means the supervisor's kill ran to completion: the
    /// child's exit is in the ring and it is no longer tracked as running.
    pub fn init_begin(&mut self, prelude: Vec<u8>) -> (r: Result<(), SupervisorError>)
        requires
            old(self).wf(),
        ensures
            final(self).wf(),
            final(self).spare() is None,
            final(self).prelude_text() == Some(prelude@),
            old(self).sup().exit_history().is_prefix_of(final(self).sup().exit_history()),
            final(self).sup().next_seq() == old(self).sup().next_seq(),
            final(self).sup().issued() == old(self).sup().issued(),
            old(self).spare() is None ==> r is Ok && final(self).sup() == old(self).sup(),
            old(self).spare() matches Some(id) ==> (r is Ok ==> ring_lookup(
                final(self).sup().exit_entries(),
                id.id,
            ) is Some && !final(self).sup().is_running_seq(id.id)),
            r is Err ==> old(self).spare() is Some,
            r matches Err(e) ==> e is MissingExitInfo || e is UnrecognizedPid || e is WaitFailed,
            running_within(final(self).sup(), old(self).sup()),
            new_exits_from_running(final(self).sup(), old(self).sup()),
    {
        self.prelude_code = Some(prelude);
        let taken = self.current_interpreter.take();
        match taken {
            Some(id) => {
                match self.supervisor.kill(&id) {
                    Ok(_) => Ok(()),
                    Err(e) => Err(e),
                }
            },
            None => Ok(()),
        }
    }

    /// `TAKE`, first step: the identity of the spare about to be handed over.
    /// The slot keeps its reference until the send has succeeded.
    pub fn take_begin(&self) -> (r: Option<ChildId>)
        requires
            self.wf(),
        ensures
            r == self.spare(),
            r matches Some(id) ==> child_id_wf(id),
    {
        self.current_interpreter
    }

    /// `TAKE`, after the descriptors were sent successfully: drop the
    /// server's reference. The caller then spawns the replacement and
    /// reports it through `note_spawned`. On a failed send this is not
    /// called, and the server keeps its spare.
    pub fn take_commit(&mut self)
        requires
            old(self).wf(),
        ensures
            final(self).wf(),
            spec_take_commit(*old(self), *final(self)),
    {
        self.current_interpreter = None;
    }

    /// `EXITCODE`: the recorded exit code of a handed-over interpreter,
    /// waiting for the child to end if it has not yet been reaped.
    ///
    /// An already-recorded code is owed: it is returned with nothing
    /// changed. `UnknownChild` comes back exactly when no exit is recorded
    /// after the wait either.
    pub fn handle_exitcode(&mut self, id: ChildId) -> (r: Result<i32, SupervisorError>)
        requires
            old(self).wf(),
        ensures
            final(self).wf(),
            final(self).spare() == old(self).spare(),
            final(self).prelude_text() == old(self).prelude_text(),
            r matches Ok(c) ==> ring_lookup(final(self).sup().exit_entries(), id.id) == Some(c)
                && c >= 0,
            ring_lookup(old(self).sup().exit_entries(), id.id) matches Some(c) ==> r == Ok::<
                i32,
                SupervisorError,
            >(c) && *final(self) == *old(self),
            r == Err::<i32, SupervisorError>(SupervisorError::UnknownChild) ==> ring_lookup(
                final(self).sup().exit_entries(),
                id.id,
            ) is None,
            r matches Err(e) ==> e is UnknownChild || e is UnrecognizedPid || e is WaitFailed,
            running_within(final(self).sup(), old(self).sup()),
            new_exits_from_running(final(self).sup(), old(self).sup()),
    {
        let r = if id.pid > 0 {
            self.supervisor.get_exit_code(id)
        } else {
            match self.supervisor.lookup_exit_code(id.id) {
                Some(c) => Ok(c),
                None => Err(SupervisorError::UnknownChild),
            }
        };
        match r {
            Ok(c) => {
                proof {
                    crate::supervisor::lemma_recorded_code_in_range(self.supervisor, id.id, c);
                }
                Ok(c)
            },
            Err(e) => Err(e),
        }
    }

    /// The child-signal stream woke: reap whatever has ended.
    pub fn handle_sigchld(&mut self) -> (r: Result<(), SupervisorError>)
        requires
            old(self).wf(),
        ensures
            final(self).wf(),
            final(self).spare() == old(self).spare(),
            final(self).prelude_text() == old(self).prelude_text(),
            running_within(final(self).sup(), old(self).sup()),
            new_exits_from_running(final(self).sup(), old(self).sup()),
    {
        self.supervisor.handle_sigchld()
    }

    /// Shut down: kill every remaining child.
    pub fn shutdown(&mut self)
        requires
            old(self).wf(),
        ensures
            final(self).wf(),
    {
        self.supervisor.shutdown();
    }
}

/// The transition `take_commit` makes: the slot is emptied, nothing else
/// changes.
pub open spec fn spec_take_commit(pre: ServerCore, post: ServerCore) -> bool {
    &&& post.spare() is None
    &&& post.sup() == pre.sup()
    &&& post.prelude_text() == pre.prelude_text()
}

/// The transition `note_spawned` makes: the new child, under the next
/// sequence number, fills the slot.
pub open spec fn spec_note_spawned(pre: ServerCore, post: ServerCore, pid: i32, id: ChildId) -> bool {
    &&& id == (ChildId { id: pre.sup().next_seq(), pid })
    &&& post.spare() == Some(id)
    &&& post.prelude_text() == pre.prelude_text()
    &&& post.sup().next_seq() == pre.sup().next_seq() + 1
    &&& post.sup().exit_history() == pre.sup().exit_history()
}

/// Refill before serve: a committed handoff empties the hot-spare slot, and
/// the spawn note that completes the same handler fills it again, so the
/// slot is non-empty before the next connection is accepted.
pub proof fn lemma_refill_before_serve(
    pre: ServerCore,
    mid: ServerCore,
    post: ServerCore,
    pid: i32,
    id: ChildId,
)
    requires
        spec_take_commit(pre, mid),
        spec_note_spawned(mid, post, pid, id),
    ensures
        post.spare() is Some,
{
}

} // verus!
