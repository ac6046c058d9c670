//! Headless mode: thane without a window, answering only the agent-queue
//! methods (and `ping`) on its socket. This module routes a request to the
//! operation that answers it, or to the error that refuses it.
use vstd::prelude::*;

use crate::methods::{method_debug_name, method_for_name, method_name, Method};
use crate::text::starts_with;
use crate::protocol::{is_error_response, RpcResponse, JSONRPC_VERSION, METHOD_NOT_FOUND};
use crate::text::push_str;

verus! {

/// The operations that headless mode performs.
#[derive(Debug, Clone, Copy, PartialEq, Eq, Structural)]
pub enum HeadlessOp {
    Submit,
    List,
    Status,
    Cancel,
    Ping,
}

/// The headless operation of a method, if headless mode answers it.
pub open spec fn headless_op(m: Method) -> Option<HeadlessOp> {
    match m {
        Method::AgentQueueSubmit => Some(HeadlessOp::Submit),
        Method::AgentQueueList => Some(HeadlessOp::List),
        Method::AgentQueueStatus => Some(HeadlessOp::Status),
        Method::AgentQueueCancel => Some(HeadlessOp::Cancel),
        Method::Ping => Some(HeadlessOp::Ping),
        _ => None,
    }
}

/// How headless mode answers a request for `method`: the operation to
/// perform, or the "method not found" message (`-32601`) for an unknown
/// name or a method that needs the window.
pub fn headless_route(method: &str) -> (r: Result<HeadlessOp, String>)
    ensures
        match method_for_name(method@) {
            None => r matches Err(m) && m@ == "Method not found: "@ + method@
                + " (headless mode only supports agent_queue.*)"@,
            Some(m) => match headless_op(m) {
                Some(op) => r == Ok::<HeadlessOp, String>(op),
                None => r matches Err(msg) && msg@ == "Method "@ + method_debug_name(m)
                    + " not available in headless mode"@,
            },
        },
{
    match Method::parse(method) {
        None => {
            let mut m = String::new();
            push_str(&mut m, "Method not found: ");
            push_str(&mut m, method);
            push_str(&mut m, " (headless mode only supports agent_queue.*)");
            Err(m)
        },
        Some(m) => match m {
            Method::AgentQueueSubmit => Ok(HeadlessOp::Submit),
            Method::AgentQueueList => Ok(HeadlessOp::List),
            Method::AgentQueueStatus => Ok(HeadlessOp::Status),
            Method::AgentQueueCancel => Ok(HeadlessOp::Cancel),
            Method::Ping => Ok(HeadlessOp::Ping),
            other => {
                let mut msg = String::new();
                push_str(&mut msg, "Method ");
                push_str(&mut msg, other.debug_name());
                push_str(&mut msg, " not available in headless mode");
                Err(msg)
            },
        },
    }
}

/// The priority of a submitted task: the request's integer, or 0, cut to
/// 32 bits as `as i32` cuts it.
pub fn submit_priority(priority: Option<i64>) -> (r: i32)
    ensures
        r == (match priority {
            Some(p) => p,
            None => 0i64,
        }) as i32,
{
    match priority {
        Some(p) => p as i32,
        None => 0,
    }
}

/// The content of a submitted task: refused where missing or empty.
pub fn submit_content(content: Option<&str>) -> (r: Option<String>)
    ensures
        match content {
            Some(c) => if c@.len() > 0 {
                r matches Some(s) && s@ == c@
            } else {
                r is None
            },
            None => r is None,
        },
{
    match content {
        Some(c) => if c.is_empty() {
            None
        } else {
            Some(c.to_owned())
        },
        None => None,
    }
}

/// The JSON object that serde_json builds with the boolean `flag` under
/// `flag_key` and the string `text` under `text_key`.
pub uninterp spec fn json_flag_text_object(flag_key: Seq<char>, flag: bool, text_key: Seq<char>, text: Seq<char>) -> serde_json::Value;

/// A JSON object of two members, built with `serde_json::Map::insert`
/// and `serde_json::Value::Object`: the boolean `flag` under `flag_key` and
/// the string `text` under `text_key`. The contract names the value; what
/// serde_json holds inside it is not restated here.
#[verifier::external_body]
fn flag_text_object(flag_key: &str, flag: bool, text_key: &str, text: &str) -> (r: serde_json::Value)
    ensures
        r == json_flag_text_object(flag_key@, flag, text_key@, text@),
{
    let mut m = serde_json::Map::new();
    m.insert(flag_key.to_string(), serde_json::Value::Bool(flag));
    m.insert(text_key.to_string(), serde_json::Value::String(text.to_string()));
    serde_json::Value::Object(m)
}

/// The answer to `ping` in headless mode: `{"pong": true, "mode": "headless"}`.
pub open spec fn headless_pong() -> serde_json::Value {
    json_flag_text_object("pong"@, true, "mode"@, "headless"@)
}

/// The response headless mode gives where the routing alone decides it:
/// a refusal is the "method not found" error (`-32601`) with its message,
/// and `ping` is answered with `{"pong": true, "mode": "headless"}`; both
/// keep the request's id. An agent-queue operation is answered by the
/// queue, not here: `None`.
pub fn headless_response(id: Option<serde_json::Value>, route: Result<HeadlessOp, String>) -> (r: Option<RpcResponse>)
    ensures
        match route {
            Err(m) => r matches Some(resp) && is_error_response(resp, id, METHOD_NOT_FOUND, m@),
            Ok(HeadlessOp::Ping) => r matches Some(resp) && resp.jsonrpc@ == JSONRPC_VERSION@ && resp.id == id
                && resp.error is None && resp.result == Some(headless_pong()),
            Ok(_) => r is None,
        },
{
    match route {
        Err(m) => Some(RpcResponse::error(id, METHOD_NOT_FOUND, m.as_str())),
        Ok(HeadlessOp::Ping) => {
            let pong = flag_text_object("pong", true, "mode", "headless");
            Some(RpcResponse::success(id, pong))
        },
        Ok(_) => None,
    }
}

/// Headless mode serves `ping` and the agent-queue methods, those whose
/// wire names start with `agent_queue.`, and no other method.
pub proof fn lemma_headless_serves_agent_queue(m: Method)
    ensures
        headless_op(m) is Some <==> (m == Method::Ping || starts_with(method_name(m), "agent_queue."@)),
{
    reveal_strlit("agent_queue.");
    reveal_strlit("ping");
    reveal_strlit("get_version");
    reveal_strlit("get_config");
    reveal_strlit("workspace.list");
    reveal_strlit("workspace.create");
    reveal_strlit("workspace.select");
    reveal_strlit("workspace.close");
    reveal_strlit("workspace.rename");
    reveal_strlit("workspace.get_info");
    reveal_strlit("surface.split_right");
    reveal_strlit("surface.split_down");
    reveal_strlit("surface.close");
    reveal_strlit("surface.focus_next");
    reveal_strlit("surface.focus_prev");
    reveal_strlit("surface.focus_direction");
    reveal_strlit("surface.zoom_toggle");
    reveal_strlit("notification.list");
    reveal_strlit("notification.mark_read");
    reveal_strlit("notification.clear");
    reveal_strlit("notification.send");
    reveal_strlit("sidebar.set_status");
    reveal_strlit("sidebar.get_metadata");
    reveal_strlit("browser.open");
    reveal_strlit("browser.navigate");
    reveal_strlit("browser.eval_js");
    reveal_strlit("browser.get_accessibility_tree");
    reveal_strlit("browser.click_element");
    reveal_strlit("browser.type_text");
    reveal_strlit("browser.screenshot");
    reveal_strlit("terminal.screenshot");
    reveal_strlit("sandbox.status");
    reveal_strlit("sandbox.enable");
    reveal_strlit("sandbox.disable");
    reveal_strlit("sandbox.allow");
    reveal_strlit("sandbox.deny");
    reveal_strlit("agent_queue.submit");
    reveal_strlit("agent_queue.list");
    reveal_strlit("agent_queue.status");
    reveal_strlit("agent_queue.cancel");
    reveal_strlit("workspace.history_list");
    reveal_strlit("workspace.history_reopen");
    reveal_strlit("workspace.history_clear");
    reveal_strlit("audit.list");
    reveal_strlit("audit.export");
    reveal_strlit("audit.clear");
    reveal_strlit("audit.set_sensitive_policy");
    match m {
        Method::Ping => {},
        Method::GetVersion => {},
        Method::GetConfig => {},
        Method::WorkspaceList => {
            assert(method_name(m).take(12)[0] != "agent_queue."@[0]);
        },
        Method::WorkspaceCreate => {
            assert(method_name(m).take(12)[0] != "agent_queue."@[0]);
        },
        Method::WorkspaceSelect => {
            assert(method_name(m).take(12)[0] != "agent_queue."@[0]);
        },
        Method::WorkspaceClose => {
            assert(method_name(m).take(12)[0] != "agent_queue."@[0]);
        },
        Method::WorkspaceRename => {
            assert(method_name(m).take(12)[0] != "agent_queue."@[0]);
        },
        Method::WorkspaceGetInfo => {
            assert(method_name(m).take(12)[0] != "agent_queue."@[0]);
        },
        Method::SurfaceSplitRight => {
            assert(method_name(m).take(12)[0] != "agent_queue."@[0]);
        },
        Method::SurfaceSplitDown => {
            assert(method_name(m).take(12)[0] != "agent_queue."@[0]);
        },
        Method::SurfaceClose => {
            assert(method_name(m).take(12)[0] != "agent_queue."@[0]);
        },
        Method::SurfaceFocusNext => {
            assert(method_name(m).take(12)[0] != "agent_queue."@[0]);
        },
        Method::SurfaceFocusPrev => {
            assert(method_name(m).take(12)[0] != "agent_queue."@[0]);
        },
        Method::SurfaceFocusDirection => {
            assert(method_name(m).take(12)[0] != "agent_queue."@[0]);
        },
        Method::SurfaceZoomToggle => {
            assert(method_name(m).take(12)[0] != "agent_queue."@[0]);
        },
        Method::NotificationList => {
            assert(method_name(m).take(12)[0] != "agent_queue."@[0]);
        },
        Method::NotificationMarkRead => {
            assert(method_name(m).take(12)[0] != "agent_queue."@[0]);
        },
        Method::NotificationClear => {
            assert(method_name(m).take(12)[0] != "agent_queue."@[0]);
        },
        Method::NotificationSend => {
            assert(method_name(m).take(12)[0] != "agent_queue."@[0]);
        },
        Method::SidebarSetStatus => {
            assert(method_name(m).take(12)[0] != "agent_queue."@[0]);
        },
        Method::SidebarGetMetadata => {
            assert(method_name(m).take(12)[0] != "agent_queue."@[0]);
        },
        Method::BrowserOpen => {
            assert(method_name(m).take(12)[0] != "agent_queue."@[0]);
        },
        Method::BrowserNavigate => {
            assert(method_name(m).take(12)[0] != "agent_queue."@[0]);
        },
        Method::BrowserEvalJs => {
            assert(method_name(m).take(12)[0] != "agent_queue."@[0]);
        },
        Method::BrowserGetAccessibilityTree => {
            assert(method_name(m).take(12)[0] != "agent_queue."@[0]);
        },
        Method::BrowserClickElement => {
            assert(method_name(m).take(12)[0] != "agent_queue."@[0]);
        },
        Method::BrowserTypeText => {
            assert(method_name(m).take(12)[0] != "agent_queue."@[0]);
        },
        Method::BrowserScreenshot => {
            assert(method_name(m).take(12)[0] != "agent_queue."@[0]);
        },
        Method::TerminalScreenshot => {
            assert(method_name(m).take(12)[0] != "agent_queue."@[0]);
        },
        Method::SandboxStatus => {
            assert(method_name(m).take(12)[0] != "agent_queue."@[0]);
        },
        Method::SandboxEnable => {
            assert(method_name(m).take(12)[0] != "agent_queue."@[0]);
        },
        Method::SandboxDisable => {
            assert(method_name(m).take(12)[0] != "agent_queue."@[0]);
        },
        Method::SandboxAllow => {
            assert(method_name(m).take(12)[0] != "agent_queue."@[0]);
        },
        Method::SandboxDeny => {
            assert(method_name(m).take(12)[0] != "agent_queue."@[0]);
        },
        Method::AgentQueueSubmit => {
            assert(method_name(m).take(12) =~= "agent_queue."@);
        },
        Method::AgentQueueList => {
            assert(method_name(m).take(12) =~= "agent_queue."@);
        },
        Method::AgentQueueStatus => {
            assert(method_name(m).take(12) =~= "agent_queue."@);
        },
        Method::AgentQueueCancel => {
            assert(method_name(m).take(12) =~= "agent_queue."@);
        },
        Method::WorkspaceHistoryList => {
            assert(method_name(m).take(12)[0] != "agent_queue."@[0]);
        },
        Method::WorkspaceHistoryReopen => {
            assert(method_name(m).take(12)[0] != "agent_queue."@[0]);
        },
        Method::WorkspaceHistoryClear => {
            assert(method_name(m).take(12)[0] != "agent_queue."@[0]);
        },
        Method::AuditList => {},
        Method::AuditExport => {
            assert(method_name(m).take(12)[1] != "agent_queue."@[1]);
        },
        Method::AuditClear => {},
        Method::AuditSetSensitivePolicy => {
            assert(method_name(m).take(12)[1] != "agent_queue."@[1]);
        },
    }
}

} // verus!
