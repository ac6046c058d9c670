use thane::headless::{headless_response, headless_route, submit_content, submit_priority, HeadlessOp};
use thane::params::{WorkspaceCloseParams, WorkspaceSelectParams};
use thane::methods::Method;

#[test]
fn test_method_parsing() {
    assert_eq!(Method::parse("ping"), Some(Method::Ping));
    assert_eq!(Method::parse("workspace.list"), Some(Method::WorkspaceList));
    assert_eq!(Method::parse("browser.eval_js"), Some(Method::BrowserEvalJs));
    assert_eq!(Method::parse("nonexistent"), None);
}

#[test]
fn test_all_methods_parse_exhaustive() {
    let all: Vec<(&str, Method)> = vec![
        ("ping", Method::Ping),
        ("get_version", Method::GetVersion),
        ("get_config", Method::GetConfig),
        ("workspace.list", Method::WorkspaceList),
        ("workspace.create", Method::WorkspaceCreate),
        ("workspace.select", Method::WorkspaceSelect),
        ("workspace.close", Method::WorkspaceClose),
        ("workspace.rename", Method::WorkspaceRename),
        ("workspace.get_info", Method::WorkspaceGetInfo),
        ("surface.split_right", Method::SurfaceSplitRight),
        ("surface.split_down", Method::SurfaceSplitDown),
        ("surface.close", Method::SurfaceClose),
        ("surface.focus_next", Method::SurfaceFocusNext),
        ("surface.focus_prev", Method::SurfaceFocusPrev),
        ("surface.focus_direction", Method::SurfaceFocusDirection),
        ("surface.zoom_toggle", Method::SurfaceZoomToggle),
        ("notification.list", Method::NotificationList),
        ("notification.mark_read", Method::NotificationMarkRead),
        ("notification.clear", Method::NotificationClear),
        ("notification.send", Method::NotificationSend),
        ("sidebar.set_status", Method::SidebarSetStatus),
        ("sidebar.get_metadata", Method::SidebarGetMetadata),
        ("browser.open", Method::BrowserOpen),
        ("browser.navigate", Method::BrowserNavigate),
        ("browser.eval_js", Method::BrowserEvalJs),
        ("browser.get_accessibility_tree", Method::BrowserGetAccessibilityTree),
        ("browser.click_element", Method::BrowserClickElement),
        ("browser.type_text", Method::BrowserTypeText),
        ("browser.screenshot", Method::BrowserScreenshot),
        ("terminal.screenshot", Method::TerminalScreenshot),
        ("sandbox.status", Method::SandboxStatus),
        ("sandbox.enable", Method::SandboxEnable),
        ("sandbox.disable", Method::SandboxDisable),
        ("sandbox.allow", Method::SandboxAllow),
        ("sandbox.deny", Method::SandboxDeny),
        ("agent_queue.submit", Method::AgentQueueSubmit),
        ("agent_queue.list", Method::AgentQueueList),
        ("agent_queue.status", Method::AgentQueueStatus),
        ("agent_queue.cancel", Method::AgentQueueCancel),
        ("workspace.history_list", Method::WorkspaceHistoryList),
        ("workspace.history_reopen", Method::WorkspaceHistoryReopen),
        ("workspace.history_clear", Method::WorkspaceHistoryClear),
        ("audit.list", Method::AuditList),
        ("audit.export", Method::AuditExport),
        ("audit.clear", Method::AuditClear),
        ("audit.set_sensitive_policy", Method::AuditSetSensitivePolicy),
    ];

    for (name, expected) in &all {
        assert_eq!(
            Method::parse(name),
            Some(expected.clone()),
            "Method::parse({name:?}) should return {expected:?}"
        );
    }
    assert_eq!(all.len(), 46);
}

#[test]
fn test_invalid_method_names() {
    assert_eq!(Method::parse(""), None);
    assert_eq!(Method::parse("Ping"), None);
    assert_eq!(Method::parse("PING"), None);
    assert_eq!(Method::parse("workspace_list"), None);
    assert_eq!(Method::parse("workspace."), None);
    assert_eq!(Method::parse(".list"), None);
    assert_eq!(Method::parse("workspace.list.extra"), None);
    assert_eq!(Method::parse(" ping"), None);
    assert_eq!(Method::parse("ping "), None);
}

#[test]
fn debug_names_match_derive() {
    for m in [Method::Ping, Method::WorkspaceGetInfo, Method::AuditSetSensitivePolicy, Method::BrowserEvalJs] {
        assert_eq!(m.debug_name(), format!("{m:?}"));
    }
}

#[test]
fn headless_routes_queue_methods() {
    assert_eq!(headless_route("agent_queue.submit"), Ok(HeadlessOp::Submit));
    assert_eq!(headless_route("agent_queue.list"), Ok(HeadlessOp::List));
    assert_eq!(headless_route("agent_queue.status"), Ok(HeadlessOp::Status));
    assert_eq!(headless_route("agent_queue.cancel"), Ok(HeadlessOp::Cancel));
    assert_eq!(headless_route("ping"), Ok(HeadlessOp::Ping));
    assert_eq!(
        headless_route("workspace.list"),
        Err("Method WorkspaceList not available in headless mode".to_string())
    );
    assert_eq!(
        headless_route("nope"),
        Err("Method not found: nope (headless mode only supports agent_queue.*)".to_string())
    );
}

#[test]
fn headless_submit_parameters() {
    assert_eq!(submit_priority(None), 0);
    assert_eq!(submit_priority(Some(5)), 5);
    assert_eq!(submit_priority(Some(1 << 32)), 0);
    assert_eq!(submit_priority(Some(-3)), -3);
    assert_eq!(submit_content(Some("task")), Some("task".to_string()));
    assert_eq!(submit_content(Some("")), None);
    assert_eq!(submit_content(None), None);
}

#[test]
fn headless_ping_answers_pong_with_the_request_id() {
    let id = Some(serde_json::Value::from(7));
    let r = headless_response(id.clone(), headless_route("ping")).unwrap();
    assert_eq!(r.id, id);
    assert!(r.error.is_none());
    let mut pong = serde_json::Map::new();
    pong.insert("pong".to_string(), serde_json::Value::Bool(true));
    pong.insert("mode".to_string(), serde_json::Value::String("headless".to_string()));
    assert_eq!(r.result, Some(serde_json::Value::Object(pong)));
}

#[test]
fn headless_refusals_are_method_not_found() {
    let id = Some(serde_json::Value::from("abc"));
    for method in ["nope", "workspace.list"] {
        let r = headless_response(id.clone(), headless_route(method)).unwrap();
        assert_eq!(r.id, id);
        assert!(r.result.is_none());
        let e = r.error.unwrap();
        assert_eq!(e.code, -32601);
        assert_eq!(Err::<HeadlessOp, String>(e.message), headless_route(method));
    }
    assert!(headless_response(None, headless_route("agent_queue.list")).is_none());
}

#[test]
fn workspace_params_hold_plain_ids() {
    let select = WorkspaceSelectParams { id: None, index: Some(2) };
    assert_eq!(select.index, Some(2));
    let close = WorkspaceCloseParams { id: Some(0x1234) };
    assert_eq!(close.id, Some(0x1234));
}
