//! The client side of the wire protocol. Each operation is an exchange: the
//! caller sends the prepared request over the local socket, reads the reply,
//! and hands it back here to be judged. All socket work stays with the
//! caller; everything decided about bytes is decided here.

use vstd::prelude::*;

use crate::child_id::{spec_parse_child_id, ChildId, child_id_wf};
use crate::text::{
    ascii_bytes, ascii_of, bytes_eq, dec_value, is_digits, parse_u32, spec_trim, starts_with,
    trim_bytes,
};

verus! {

#[derive(Debug, PartialEq, Eq)]
pub enum ClientError {
    /// The reply did not have the expected success form; holds the reply.
    UnexpectedResponse(Vec<u8>),
    /// The server reported an error; holds its message.
    ServerReportedError(Vec<u8>),
}

/// Parse of an `EXITCODE` reply: `OK <code>` with a non-negative decimal
/// code, surrounding whitespace ignored.
pub open spec fn spec_parse_exitcode_response(resp: Seq<u8>) -> Option<i32> {
    let t = spec_trim(resp);
    if ascii_of("OK "@).is_prefix_of(t) {
        let num = t.skip(3);
        if num.len() >= 1 && is_digits(num) && dec_value(num) <= i32::MAX {
            Some(dec_value(num) as i32)
        } else {
            None
        }
    } else {
        None
    }
}

/// Parse of a `TAKE` reply body: `OK <id>`.
pub open spec fn spec_parse_take_response(body: Seq<u8>) -> Option<ChildId> {
    if ascii_of("OK "@).is_prefix_of(body) {
        spec_parse_child_id(body.skip(3))
    } else {
        None
    }
}

/// An `INIT` exchange in flight.
pub struct InitExchange {
    request: Vec<u8>,
}

/// A `TAKE` exchange in flight.
pub struct TakeExchange {
    request: Vec<u8>,
}

/// An `EXITCODE` exchange in flight.
pub struct ExitCodeExchange {
    request: Vec<u8>,
}

impl InitExchange {
    pub closed spec fn req(self) -> Seq<u8> {
        self.request@
    }

    /// The bytes to send.
    pub fn request(&self) -> (r: &Vec<u8>)
        ensures
            r@ == self.req(),
    {
        &self.request
    }

    /// Judge the reply: success is exactly the bare `OK`.
    pub fn finish(self, response: &[u8]) -> (r: Result<(), ClientError>)
        ensures
            r is Ok <==> spec_trim(response@) == ascii_of("OK"@),
            r matches Err(ClientError::UnexpectedResponse(m)) ==> m@ == response@,
            r is Err ==> r matches Err(ClientError::UnexpectedResponse(m)),
    {
        proof {
            reveal_strlit("OK");
        }
        let ok = ascii_bytes("OK");
        let t = trim_bytes(response);
        if bytes_eq(t, ok.as_slice()) {
            Ok(())
        } else {
            Err(ClientError::UnexpectedResponse(vstd::slice::slice_to_vec(response)))
        }
    }
}

/// Begin an `INIT` exchange: the request carries the prelude verbatim.
pub fn initialize(prelude: &[u8]) -> (ex: InitExchange)
    ensures
        ex.req() == ascii_of("INIT "@) + prelude@,
{
    proof {
        reveal_strlit("INIT ");
    }
    let mut request = ascii_bytes("INIT ");
    let mut body = vstd::slice::slice_to_vec(prelude);
    request.append(&mut body);
    InitExchange { request }
}

impl TakeExchange {
    pub closed spec fn req(self) -> Seq<u8> {
        self.request@
    }

    /// The bytes to send.
    pub fn request(&self) -> (r: &Vec<u8>)
        ensures
            r@ == self.req(),
    {
        &self.request
    }

    /// Judge the reply. The message must have arrived with exactly two file
    /// descriptors attached (control stream, then PTY master); with fewer,
    /// the body is the server's error text and is surfaced as such.
    pub fn finish(self, body: &[u8], fd_count: usize) -> (r: Result<ChildId, ClientError>)
        ensures
            fd_count < 2 ==> (r matches Err(ClientError::ServerReportedError(m)) && m@ == body@),
            fd_count >= 2 ==> (r is Ok <==> spec_parse_take_response(body@) is Some),
            fd_count >= 2 ==> (r matches Ok(id) ==> spec_parse_take_response(body@) == Some(id)
                && child_id_wf(id)),
            fd_count >= 2 && spec_parse_take_response(body@) is None ==> (r matches Err(
                ClientError::UnexpectedResponse(m),
            ) && m@ == body@),
    {
        if fd_count < 2 {
            return Err(ClientError::ServerReportedError(vstd::slice::slice_to_vec(body)));
        }
        proof {
            reveal_strlit("OK ");
        }
        let ok_tag = ascii_bytes("OK ");
        if !starts_with(body, ok_tag.as_slice()) {
            return Err(ClientError::UnexpectedResponse(vstd::slice::slice_to_vec(body)));
        }
        let rest = vstd::slice::slice_subrange(body, 3, body.len());
        proof {
            assert(rest@ =~= body@.skip(3));
        }
        match ChildId::parse(rest) {
            Ok(id) => Ok(id),
            Err(_) => Err(ClientError::UnexpectedResponse(vstd::slice::slice_to_vec(body))),
        }
    }
}

/// Begin a `TAKE` exchange.
pub fn take_interpreter() -> (ex: TakeExchange)
    ensures
        ex.req() == ascii_of("TAKE"@),
{
    proof {
        reveal_strlit("TAKE");
    }
    TakeExchange { request: ascii_bytes("TAKE") }
}

impl ExitCodeExchange {
    pub closed spec fn req(self) -> Seq<u8> {
        self.request@
    }

    /// The bytes to send.
    pub fn request(&self) -> (r: &Vec<u8>)
        ensures
            r@ == self.req(),
    {
        &self.request
    }

    /// Judge the reply: success is `OK <code>`.
    pub fn finish(self, response: &[u8]) -> (r: Result<i32, ClientError>)
        ensures
            r is Ok <==> spec_parse_exitcode_response(response@) is Some,
            r matches Ok(c) ==> spec_parse_exitcode_response(response@) == Some(c),
            r matches Err(ClientError::UnexpectedResponse(m)) ==> m@ == response@,
            r is Err ==> r matches Err(ClientError::UnexpectedResponse(m)),
    {
        proof {
            reveal_strlit("OK ");
        }
        let ok_tag = ascii_bytes("OK ");
        let t = trim_bytes(response);
        if !starts_with(t, ok_tag.as_slice()) {
            return Err(ClientError::UnexpectedResponse(vstd::slice::slice_to_vec(response)));
        }
        let num = vstd::slice::slice_subrange(t, 3, t.len());
        proof {
            assert(num@ =~= spec_trim(response@).skip(3));
        }
        match parse_u32(num) {
            Some(v) if v <= 0x7FFF_FFFF => Ok(v as i32),
            _ => Err(ClientError::UnexpectedResponse(vstd::slice::slice_to_vec(response))),
        }
    }
}

/// Begin an `EXITCODE` exchange for a handed-over interpreter.
pub fn get_exit_code(id: &ChildId) -> (ex: ExitCodeExchange)
    requires
        child_id_wf(*id),
    ensures
        ex.req() == ascii_of("EXITCODE "@) + crate::child_id::child_id_text(*id),
{
    proof {
        reveal_strlit("EXITCODE ");
    }
    let mut request = ascii_bytes("EXITCODE ");
    let mut id_text = id.to_text();
    request.append(&mut id_text);
    ExitCodeExchange { request }
}

/// What the server answers for an exit code, the client reads back as that
/// exit code: the wire format loses nothing.
pub proof fn lemma_exit_code_round_trip(code: i32)
    requires
        code >= 0,
    ensures
        spec_parse_exitcode_response(crate::protocol::exitcode_response_text(code)) == Some(code),
{
    let resp = crate::protocol::exitcode_response_text(code);
    reveal_strlit("OK ");
    crate::text::lemma_dec_of_digits(code as nat);
    crate::text::lemma_dec_of_value(code as nat);
    lemma_trim_of_untrimmed(resp);
    assert(resp.skip(3) =~= crate::text::dec_of(code as nat));
}

/// A sequence that neither starts nor ends with whitespace trims to itself.
proof fn lemma_trim_of_untrimmed(s: Seq<u8>)
    requires
        s.len() > 0,
        !crate::text::is_ws(s[0]),
        !crate::text::is_ws(s.last()),
    ensures
        spec_trim(s) == s,
{
}

/// The body the server attaches to a handoff, the client reads back as the
/// same identity.
pub proof fn lemma_take_round_trip(id: ChildId)
    requires
        child_id_wf(id),
    ensures
        spec_parse_take_response(crate::protocol::take_response_text(id)) == Some(id),
{
    let body = crate::protocol::take_response_text(id);
    reveal_strlit("OK ");
    assert(body.skip(3) =~= crate::child_id::child_id_text(id));
    crate::child_id::lemma_child_id_round_trip(id);
}

} // verus!
