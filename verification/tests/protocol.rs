use serde_json::Value;
use thane::params::{default_region, AgentQueueStatus, SurfaceFocusDirectionParams, VersionInfo, WorkspaceCreateParams};
use thane::protocol::{RpcRequest, RpcResponse};

fn empty_object() -> Value {
    Value::Object(serde_json::Map::new())
}

fn one() -> Value {
    Value::Number(1.into())
}

#[test]
fn test_request_new() {
    let req = RpcRequest::new("ping", empty_object());
    assert_eq!(req.jsonrpc, "2.0");
    assert_eq!(req.method, "ping");
    assert_eq!(req.params, empty_object());
    assert_eq!(req.id, Some(one()));
}

#[test]
fn test_request_notification() {
    let req = RpcRequest::notification("workspace.list", Value::Null);
    assert_eq!(req.jsonrpc, "2.0");
    assert_eq!(req.method, "workspace.list");
    assert!(req.id.is_none());
}

#[test]
fn test_response_success() {
    let resp = RpcResponse::success(Some(one()), Value::String("ok".to_string()));
    assert_eq!(resp.jsonrpc, "2.0");
    assert_eq!(resp.result, Some(Value::String("ok".to_string())));
    assert!(resp.error.is_none());
    assert_eq!(resp.id, Some(one()));
}

#[test]
fn test_response_error() {
    let resp = RpcResponse::error(Some(one()), -32000, "custom error");
    assert!(resp.result.is_none());
    let err = resp.error.unwrap();
    assert_eq!(err.code, -32000);
    assert_eq!(err.message, "custom error");
}

#[test]
fn test_parse_error() {
    let resp = RpcResponse::parse_error();
    let err = resp.error.unwrap();
    assert_eq!(err.code, -32700);
    assert!(resp.id.is_none());
}

#[test]
fn test_invalid_request() {
    let resp = RpcResponse::invalid_request(Some(Value::Number(5.into())));
    let err = resp.error.unwrap();
    assert_eq!(err.code, -32600);
    assert_eq!(resp.id, Some(Value::Number(5.into())));
}

#[test]
fn test_method_not_found() {
    let resp = RpcResponse::method_not_found(None, "foo.bar");
    let err = resp.error.unwrap();
    assert_eq!(err.code, -32601);
    assert!(err.message.contains("foo.bar"));
}

#[test]
fn test_invalid_params() {
    let resp = RpcResponse::invalid_params(None, "missing field");
    let err = resp.error.unwrap();
    assert_eq!(err.code, -32602);
    assert_eq!(err.message, "missing field");
}

#[test]
fn test_internal_error() {
    let resp = RpcResponse::internal_error(None, "something broke");
    let err = resp.error.unwrap();
    assert_eq!(err.code, -32603);
}

#[test]
fn params_values() {
    assert_eq!(default_region(), "visible");
    assert_eq!(AgentQueueStatus::Cancelled.wire_name(), "cancelled");
    assert_eq!(AgentQueueStatus::Queued.wire_name(), "queued");
    let p = WorkspaceCreateParams { title: Some("t".to_string()), cwd: None };
    assert_eq!(p.title.as_deref(), Some("t"));
    let d = SurfaceFocusDirectionParams { direction: "left".to_string() };
    assert_eq!(d.direction, "left");
    let v = VersionInfo { version: "0.1.0".to_string(), git_hash: None };
    assert_eq!(v.version, "0.1.0");
}
