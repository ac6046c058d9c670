//! The framing of the IPC socket: newline-delimited JSON-RPC, with an
//! optional token handshake. The socket, the JSON codec and the tasks stay
//! with the caller; this module holds the lines and the decisions around
//! them.
use vstd::prelude::*;

use crate::protocol::RpcResponse;
use crate::text::{chars_of, contains_seq, find_exec, push_str, trim, trim_str};

verus! {

/// The line a client reads when its token is accepted.
pub const TOKEN_ACCEPTED_LINE: &'static str = "{\"auth\":\"ok\"}\n";

/// The JSON-RPC error line sent to a client refused before any request
/// (`-32600`, no id). The reason is inserted as it is.
pub open spec fn rejection_line_spec(reason: Seq<char>) -> Seq<char> {
    "{\"jsonrpc\":\"2.0\",\"id\":null,\"error\":{\"code\":-32600,\"message\":\""@ + reason + "\"}}\n"@
}

/// The line sent to a client refused before any request.
pub fn rejection_line(reason: &str) -> (r: String)
    ensures
        r@ == rejection_line_spec(reason@),
{
    let mut r = String::new();
    push_str(&mut r, "{\"jsonrpc\":\"2.0\",\"id\":null,\"error\":{\"code\":-32600,\"message\":\"");
    push_str(&mut r, reason);
    push_str(&mut r, "\"}}\n");
    r
}

/// The line sent to a client whose token is refused.
pub open spec fn token_denied_line_spec(error: Seq<char>) -> Seq<char> {
    "{\"auth\":\"denied\",\"error\":\""@ + error + "\"}\n"@
}

/// The line sent to a client whose token is refused, with the error text.
pub fn token_denied_line(error: &str) -> (r: String)
    ensures
        r@ == token_denied_line_spec(error@),
{
    let mut r = String::new();
    push_str(&mut r, "{\"auth\":\"denied\",\"error\":\"");
    push_str(&mut r, error);
    push_str(&mut r, "\"}\n");
    r
}

/// Whether the server's answer to a token refuses it: the trimmed line
/// mentions `"denied"`.
pub fn auth_reply_denied(line: &str) -> (r: bool)
    ensures
        r == contains_seq(trim(line@), "\"denied\""@),
{
    let t = trim_str(line);
    let tv = chars_of(t.as_str());
    let d = chars_of("\"denied\"");
    find_exec(&tv, &d).is_some()
}

/// The request a line from a client carries: the line trimmed, or nothing
/// for a blank line, which is skipped.
pub fn request_text(line: &str) -> (r: Option<String>)
    ensures
        trim(line@).len() == 0 ==> r is None,
        trim(line@).len() > 0 ==> (r matches Some(t) && t@ == trim(line@)),
{
    let t = trim_str(line);
    if t.as_str().is_empty() {
        None
    } else {
        Some(t)
    }
}

/// The token a client sent as its first line: the line trimmed.
pub fn token_from_line(line: &str) -> (r: String)
    ensures
        r@ == trim(line@),
{
    trim_str(line)
}

/// Whether a response is written back: a notification (no id) gets none,
/// unless it is an error.
pub fn wants_reply(response: &RpcResponse) -> (r: bool)
    ensures
        r == (response.id is Some || response.error is Some),
{
    response.id.is_some() || response.error.is_some()
}

} // verus!
