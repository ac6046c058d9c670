//! JSON-RPC 2.0 messages of the IPC protocol. Parameters, results and ids
//! are JSON values that the library carries through without reading them.
use vstd::prelude::*;

use crate::text::push_str;

verus! {

/// A JSON value of `serde_json`, carried through unread.
#[verifier::external_type_specification]
#[verifier::external_body]
pub struct ExJsonValue(serde_json::Value);

/// The protocol version that every message carries.
pub const JSONRPC_VERSION: &'static str = "2.0";

/// Invalid JSON was received.
pub const PARSE_ERROR: i32 = -32700;

/// The JSON sent is not a valid request object.
pub const INVALID_REQUEST: i32 = -32600;

/// The method does not exist.
pub const METHOD_NOT_FOUND: i32 = -32601;

/// Invalid method parameters.
pub const INVALID_PARAMS: i32 = -32602;

/// Internal error.
pub const INTERNAL_ERROR: i32 = -32603;

/// The JSON number 1 (`serde_json::Value::Number(1.into())`), the id of a
/// request made here.
///
/// Nothing is claimed of it: the value is opaque to the library.
#[verifier::external_body]
fn json_one() -> (r: serde_json::Value) {
    serde_json::Value::Number(1.into())
}

/// JSON-RPC 2.0 request.
#[derive(Debug)]
pub struct RpcRequest {
    pub jsonrpc: String,
    pub method: String,
    pub params: serde_json::Value,
    pub id: Option<serde_json::Value>,
}

impl RpcRequest {
    /// A request for `method`, with the id 1.
    pub fn new(method: &str, params: serde_json::Value) -> (r: Self)
        ensures
            r.jsonrpc@ == JSONRPC_VERSION@,
            r.method@ == method@,
            r.params == params,
            r.id is Some,
    {
        RpcRequest { jsonrpc: JSONRPC_VERSION.to_owned(), method: method.to_owned(), params, id: Some(json_one()) }
    }

    /// A notification for `method`: a request without an id, which gets no
    /// response.
    pub fn notification(method: &str, params: serde_json::Value) -> (r: Self)
        ensures
            r.jsonrpc@ == JSONRPC_VERSION@,
            r.method@ == method@,
            r.params == params,
            r.id is None,
    {
        RpcRequest { jsonrpc: JSONRPC_VERSION.to_owned(), method: method.to_owned(), params, id: None }
    }
}

/// JSON-RPC 2.0 error object.
#[derive(Debug)]
pub struct RpcError {
    pub code: i32,
    pub message: String,
    pub data: Option<serde_json::Value>,
}

/// JSON-RPC 2.0 response: a result or an error.
#[derive(Debug)]
pub struct RpcResponse {
    pub jsonrpc: String,
    pub result: Option<serde_json::Value>,
    pub error: Option<RpcError>,
    pub id: Option<serde_json::Value>,
}

/// Whether a response is the error `code` with `message`, for `id`.
pub open spec fn is_error_response(r: RpcResponse, id: Option<serde_json::Value>, code: i32, message: Seq<char>) -> bool {
    &&& r.jsonrpc@ == JSONRPC_VERSION@
    &&& r.result is None
    &&& r.id == id
    &&& r.error matches Some(e) && e.code == code && e.message@ == message && e.data is None
}

impl RpcResponse {
    /// A successful response carrying `result`.
    pub fn success(id: Option<serde_json::Value>, result: serde_json::Value) -> (r: Self)
        ensures
            r.jsonrpc@ == JSONRPC_VERSION@,
            r.result == Some(result),
            r.error is None,
            r.id == id,
    {
        RpcResponse { jsonrpc: JSONRPC_VERSION.to_owned(), result: Some(result), error: None, id }
    }

    /// An error response.
    pub fn error(id: Option<serde_json::Value>, code: i32, message: &str) -> (r: Self)
        ensures
            is_error_response(r, id, code, message@),
    {
        RpcResponse {
            jsonrpc: JSONRPC_VERSION.to_owned(),
            result: None,
            error: Some(RpcError { code, message: message.to_owned(), data: None }),
            id,
        }
    }

    /// The answer to invalid JSON.
    pub fn parse_error() -> (r: Self)
        ensures
            is_error_response(r, None, PARSE_ERROR, "Parse error"@),
    {
        Self::error(None, PARSE_ERROR, "Parse error")
    }

    /// The answer to a message that is not a request.
    pub fn invalid_request(id: Option<serde_json::Value>) -> (r: Self)
        ensures
            is_error_response(r, id, INVALID_REQUEST, "Invalid Request"@),
    {
        Self::error(id, INVALID_REQUEST, "Invalid Request")
    }

    /// The answer to an unknown method.
    pub fn method_not_found(id: Option<serde_json::Value>, method: &str) -> (r: Self)
        ensures
            is_error_response(r, id, METHOD_NOT_FOUND, "Method not found: "@ + method@),
    {
        let mut m = String::new();
        push_str(&mut m, "Method not found: ");
        push_str(&mut m, method);
        Self::error(id, METHOD_NOT_FOUND, m.as_str())
    }

    /// The answer to parameters that do not fit the method.
    pub fn invalid_params(id: Option<serde_json::Value>, msg: &str) -> (r: Self)
        ensures
            is_error_response(r, id, INVALID_PARAMS, msg@),
    {
        Self::error(id, INVALID_PARAMS, msg)
    }

    /// The answer to a failure while handling a request.
    pub fn internal_error(id: Option<serde_json::Value>, msg: &str) -> (r: Self)
        ensures
            is_error_response(r, id, INTERNAL_ERROR, msg@),
    {
        Self::error(id, INTERNAL_ERROR, msg)
    }
}

} // verus!
