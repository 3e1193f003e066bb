//! The server side of the wire protocol: textual requests on the local
//! socket, and the responses the server writes back.
//!
//! A request is at most 1024 raw bytes, read in one piece and trimmed of
//! trailing whitespace: `INIT <prelude>` (the prelude may span lines),
//! `TAKE`, or `EXITCODE (seq,pid)`. Responses are `OK`, `OK <id>`,
//! `OK <code>`, or `ERROR: <message>` followed by a newline.

use vstd::prelude::*;

use crate::child_id::{child_id_text, child_id_wf, spec_parse_child_id, ChildId};
use crate::text::{
    ascii_bytes, ascii_of, dec_of, fmt_u32, spec_trim, starts_with, trim_back, trim_back_bytes,
    trim_bytes,
};

verus! {

/// A parsed request.
pub enum Request {
    /// `INIT <prelude>`: replace the prelude and respawn the hot spare.
    Init { prelude: Vec<u8> },
    /// `TAKE`: hand over the hot spare.
    Take,
    /// `EXITCODE <id>`: report the exit code of a handed-over interpreter.
    ExitCode { id: ChildId },
    /// `EXITCODE` with an id that does not parse.
    BadExitCode,
    /// Any other request.
    Unknown,
}

/// The trimmed request is the `INIT` form: the keyword alone (an empty
/// prelude, since trailing whitespace is trimmed) or the keyword, a space
/// and the prelude text.
pub open spec fn is_init_request(t: Seq<u8>) -> bool {
    ascii_of("INIT "@).is_prefix_of(t) || t == ascii_of("INIT"@)
}

/// The prelude carried by an `INIT` request.
pub open spec fn init_prelude_text(t: Seq<u8>) -> Seq<u8> {
    if ascii_of("INIT "@).is_prefix_of(t) {
        t.skip(5)
    } else {
        Seq::empty()
    }
}

/// The trimmed request is exactly `TAKE`.
pub open spec fn is_take_request(t: Seq<u8>) -> bool {
    t == ascii_of("TAKE"@)
}

/// The trimmed request starts the `EXITCODE` form.
pub open spec fn is_exitcode_request(t: Seq<u8>) -> bool {
    ascii_of("EXITCODE "@).is_prefix_of(t)
}

/// The id text of an `EXITCODE` request: what follows the keyword, trimmed.
pub open spec fn exitcode_id_text(t: Seq<u8>) -> Seq<u8> {
    spec_trim(t.skip(9))
}

/// Parse one request, as received: trailing whitespace is ignored.
pub fn parse_request(raw: &[u8]) -> (r: Request)
    ensures
        ({
            let t = trim_back(raw@);
            &&& (r is Init <==> is_init_request(t))
            &&& (r matches Request::Init { prelude } ==> prelude@ == init_prelude_text(t))
            &&& (r is Take <==> !is_init_request(t) && is_take_request(t))
            &&& ((r is ExitCode || r is BadExitCode) <==> !is_init_request(t) && !is_take_request(
                t,
            ) && is_exitcode_request(t))
            &&& (r matches Request::ExitCode { id } ==> spec_parse_child_id(exitcode_id_text(t))
                == Some(id) && child_id_wf(id))
            &&& (r is BadExitCode ==> spec_parse_child_id(exitcode_id_text(t)) is None)
            &&& (r is ExitCode ==> spec_parse_child_id(exitcode_id_text(t)) is Some)
        }),
{
    let t = trim_back_bytes(raw);
    let init_tag = ascii_bytes_lit_init();
    if starts_with(t, init_tag.as_slice()) {
        let rest = vstd::slice::slice_subrange(t, 5, t.len());
        proof {
            assert(rest@ =~= trim_back(raw@).skip(5));
        }
        return Request::Init { prelude: vstd::slice::slice_to_vec(rest) };
    }
    let init_bare = ascii_bytes_lit_init_bare();
    if crate::text::bytes_eq(t, init_bare.as_slice()) {
        return Request::Init { prelude: Vec::new() };
    }
    let take_tag = ascii_bytes_lit_take();
    if crate::text::bytes_eq(t, take_tag.as_slice()) {
        return Request::Take;
    }
    let exitcode_tag = ascii_bytes_lit_exitcode();
    if starts_with(t, exitcode_tag.as_slice()) {
        let rest = vstd::slice::slice_subrange(t, 9, t.len());
        proof {
            assert(rest@ =~= trim_back(raw@).skip(9));
        }
        let id_text = trim_bytes(rest);
        match ChildId::parse(id_text) {
            Ok(id) => {
                return Request::ExitCode { id };
            },
            Err(_) => {
                return Request::BadExitCode;
            },
        }
    }
    Request::Unknown
}

fn ascii_bytes_lit_init() -> (r: Vec<u8>)
    ensures
        r@ == ascii_of("INIT "@),
        r@.len() == 5,
{
    proof {
        reveal_strlit("INIT ");
    }
    ascii_bytes("INIT ")
}

fn ascii_bytes_lit_init_bare() -> (r: Vec<u8>)
    ensures
        r@ == ascii_of("INIT"@),
{
    proof {
        reveal_strlit("INIT");
    }
    ascii_bytes("INIT")
}

fn ascii_bytes_lit_take() -> (r: Vec<u8>)
    ensures
        r@ == ascii_of("TAKE"@),
{
    proof {
        reveal_strlit("TAKE");
    }
    ascii_bytes("TAKE")
}

fn ascii_bytes_lit_exitcode() -> (r: Vec<u8>)
    ensures
        r@ == ascii_of("EXITCODE "@),
        r@.len() == 9,
{
    proof {
        reveal_strlit("EXITCODE ");
    }
    ascii_bytes("EXITCODE ")
}

/// The `OK` response.
pub fn format_ok() -> (r: Vec<u8>)
    ensures
        r@ == ascii_of("OK"@),
{
    proof {
        reveal_strlit("OK");
    }
    ascii_bytes("OK")
}

/// Body of a `TAKE` response: `OK <id>`.
pub open spec fn take_response_text(id: ChildId) -> Seq<u8> {
    ascii_of("OK "@) + child_id_text(id)
}

pub fn format_take_response(id: &ChildId) -> (r: Vec<u8>)
    requires
        child_id_wf(*id),
    ensures
        r@ == take_response_text(*id),
{
    proof {
        reveal_strlit("OK ");
    }
    let mut r = ascii_bytes("OK ");
    let mut id_text = id.to_text();
    r.append(&mut id_text);
    r
}

/// An `EXITCODE` response: `OK <code>`.
pub open spec fn exitcode_response_text(code: i32) -> Seq<u8>
    recommends
        code >= 0,
{
    ascii_of("OK "@) + dec_of(code as nat)
}

pub fn format_exitcode_response(code: i32) -> (r: Vec<u8>)
    requires
        code >= 0,
    ensures
        r@ == exitcode_response_text(code),
{
    proof {
        reveal_strlit("OK ");
    }
    let mut r = ascii_bytes("OK ");
    let mut num = fmt_u32(code as u32);
    r.append(&mut num);
    r
}

/// An error response: `ERROR: <message>` and a newline.
pub open spec fn error_response_text(msg: Seq<u8>) -> Seq<u8> {
    ascii_of("ERROR: "@) + msg + ascii_of("\n"@)
}

pub fn format_error(msg: &[u8]) -> (r: Vec<u8>)
    ensures
        r@ == error_response_text(msg@),
{
    proof {
        reveal_strlit("ERROR: ");
        reveal_strlit("\n");
    }
    let mut r = ascii_bytes("ERROR: ");
    let mut body = vstd::slice::slice_to_vec(msg);
    r.append(&mut body);
    let mut nl = ascii_bytes("\n");
    r.append(&mut nl);
    r
}

/// The error response to a `TAKE` with an empty hot-spare slot.
pub fn format_no_interpreter_error() -> (r: Vec<u8>)
    ensures
        r@ == error_response_text(ascii_of("no interpreter"@)),
{
    proof {
        reveal_strlit("no interpreter");
    }
    let msg = ascii_bytes("no interpreter");
    format_error(msg.as_slice())
}

/// The error response to an unrecognized request.
pub fn format_unknown_command_error() -> (r: Vec<u8>)
    ensures
        r@ == error_response_text(ascii_of("Unknown command"@)),
{
    proof {
        reveal_strlit("Unknown command");
    }
    let msg = ascii_bytes("Unknown command");
    format_error(msg.as_slice())
}

/// The error response to an `EXITCODE` request whose id does not parse.
pub fn format_bad_child_id_error() -> (r: Vec<u8>)
    ensures
        r@ == error_response_text(ascii_of("invalid ChildId"@)),
{
    proof {
        reveal_strlit("invalid ChildId");
    }
    let msg = ascii_bytes("invalid ChildId");
    format_error(msg.as_slice())
}

/// The error response for a supervisor failure.
pub fn format_supervisor_error(e: &crate::supervisor::SupervisorError) -> (r: Vec<u8>)
    ensures
        r@ == error_response_text(crate::supervisor::spec_message(*e)),
{
    let msg = e.message();
    format_error(msg.as_slice())
}

} // verus!
