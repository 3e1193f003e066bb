//! The interpreter handle as both sides reason about it: its identity and
//! whether its in-process supervised loop is still waiting. The descriptors
//! themselves (control stream, PTY master) live with the caller; what is
//! written over the control channel is composed and checked here.
//!
//! Delivery is two-phase: first the line that ends the supervised loop (the
//! server sends it just before handing the interpreter over, and reads one
//! `OK` back), then the full instructions payload (sent by the client, which
//! then shuts the stream down). Every line is a quoted literal.

use vstd::prelude::*;

use crate::child_id::{child_id_wf, ChildId};
use crate::instructions::py_quoted;
use crate::text::{ascii_bytes, ascii_of, bytes_eq, spec_trim, trim_bytes};

verus! {

/// A payload framed for the control channel: a quoted literal and a newline.
pub open spec fn control_line(payload: Seq<u8>) -> Seq<u8> {
    py_quoted(payload) + seq![0x0Au8]
}

/// The line that tells the in-interpreter supervised loop to stop waiting
/// and acknowledge.
pub open spec fn stop_supervision_text() -> Seq<u8> {
    ascii_of("supervised = False; ctrl.write('OK\\n')"@)
}

/// Frame one payload for the control channel.
pub fn frame_control_line(payload: &[u8]) -> (r: Vec<u8>)
    ensures
        r@ == control_line(payload@),
{
    let mut r = crate::instructions::py_quote(payload);
    r.push(0x0A);
    proof {
        assert(r@ =~= control_line(payload@));
    }
    r
}

/// A spawned interpreter, as its identity and supervision state.
pub struct Interpreter {
    id: ChildId,
    supervised: bool,
}

impl Interpreter {
    pub closed spec fn spec_id(self) -> ChildId {
        self.id
    }

    pub closed spec fn spec_supervised(self) -> bool {
        self.supervised
    }

    /// A freshly spawned interpreter waits in its supervised loop.
    pub fn new(id: ChildId) -> (r: Interpreter)
        requires
            child_id_wf(id),
        ensures
            r.spec_id() == id,
            r.spec_supervised(),
    {
        Interpreter { id, supervised: true }
    }

    /// The handle as the client reconstructs it after a handoff: the server
    /// ended the supervised loop before sending the descriptors.
    pub fn from_handoff(id: ChildId) -> (r: Interpreter)
        requires
            child_id_wf(id),
        ensures
            r.spec_id() == id,
            !r.spec_supervised(),
    {
        Interpreter { id, supervised: false }
    }

    pub fn id(&self) -> (r: ChildId)
        ensures
            r == self.spec_id(),
    {
        self.id
    }

    pub fn is_supervised(&self) -> (r: bool)
        ensures
            r == self.spec_supervised(),
    {
        self.supervised
    }

    /// Phase one of handoff: the line that ends the supervised loop.
    pub fn unsupervise_message(&self) -> (r: Vec<u8>)
        ensures
            r@ == control_line(stop_supervision_text()),
    {
        proof {
            reveal_strlit("supervised = False; ctrl.write('OK\\n')");
        }
        let text = ascii_bytes("supervised = False; ctrl.write('OK\\n')");
        frame_control_line(text.as_slice())
    }

    /// The acknowledgement the interpreter writes back is a bare `OK`.
    pub fn check_unsupervise_reply(reply: &[u8]) -> (r: bool)
        ensures
            r == (spec_trim(reply@) == ascii_of("OK"@)),
    {
        proof {
            reveal_strlit("OK");
        }
        let ok = ascii_bytes("OK");
        let t = trim_bytes(reply);
        bytes_eq(t, ok.as_slice())
    }

    /// The acknowledgement arrived: the interpreter no longer counts as
    /// supervised and may take instructions.
    pub fn mark_unsupervised(&mut self)
        ensures
            final(self).spec_id() == old(self).spec_id(),
            !final(self).spec_supervised(),
    {
        self.supervised = false;
    }

    /// Phase two: the framed instructions payload. Only an interpreter whose
    /// supervised loop has ended takes instructions.
    pub fn instructions_message(&self, instructions: &[u8]) -> (r: Vec<u8>)
        requires
            !self.spec_supervised(),
        ensures
            r@ == control_line(instructions@),
    {
        frame_control_line(instructions)
    }
}

} // verus!
