//! The JSON-RPC methods that thane answers, and their wire names.
use vstd::prelude::*;

use crate::text::{chars_eq_str, chars_of};

verus! {

/// All RPC methods supported by thane.
#[derive(Debug, Clone, Copy, PartialEq, Eq, Hash, Structural)]
pub enum Method {
    // System
    Ping,
    GetVersion,
    GetConfig,

    // Workspace management
    WorkspaceList,
    WorkspaceCreate,
    WorkspaceSelect,
    WorkspaceClose,
    WorkspaceRename,
    WorkspaceGetInfo,

    // Surface / pane management
    SurfaceSplitRight,
    SurfaceSplitDown,
    SurfaceClose,
    SurfaceFocusNext,
    SurfaceFocusPrev,
    SurfaceFocusDirection,
    SurfaceZoomToggle,

    // Notifications
    NotificationList,
    NotificationMarkRead,
    NotificationClear,
    NotificationSend,

    // Sidebar
    SidebarSetStatus,
    SidebarGetMetadata,

    // Browser
    BrowserOpen,
    BrowserNavigate,
    BrowserEvalJs,
    BrowserGetAccessibilityTree,
    BrowserClickElement,
    BrowserTypeText,
    BrowserScreenshot,

    // Terminal
    TerminalScreenshot,

    // Sandbox
    SandboxStatus,
    SandboxEnable,
    SandboxDisable,
    SandboxAllow,
    SandboxDeny,

    // Agent queue (headless agent support)
    AgentQueueSubmit,
    AgentQueueList,
    AgentQueueStatus,
    AgentQueueCancel,

    // Workspace history (recently closed)
    WorkspaceHistoryList,
    WorkspaceHistoryReopen,
    WorkspaceHistoryClear,

    // Audit trail
    AuditList,
    AuditExport,
    AuditClear,
    AuditSetSensitivePolicy,
}

/// The wire name of each method.
pub open spec fn method_name(m: Method) -> Seq<char> {
    match m {
        Method::Ping => "ping"@,
        Method::GetVersion => "get_version"@,
        Method::GetConfig => "get_config"@,
        Method::WorkspaceList => "workspace.list"@,
        Method::WorkspaceCreate => "workspace.create"@,
        Method::WorkspaceSelect => "workspace.select"@,
        Method::WorkspaceClose => "workspace.close"@,
        Method::WorkspaceRename => "workspace.rename"@,
        Method::WorkspaceGetInfo => "workspace.get_info"@,
        Method::SurfaceSplitRight => "surface.split_right"@,
        Method::SurfaceSplitDown => "surface.split_down"@,
        Method::SurfaceClose => "surface.close"@,
        Method::SurfaceFocusNext => "surface.focus_next"@,
        Method::SurfaceFocusPrev => "surface.focus_prev"@,
        Method::SurfaceFocusDirection => "surface.focus_direction"@,
        Method::SurfaceZoomToggle => "surface.zoom_toggle"@,
        Method::NotificationList => "notification.list"@,
        Method::NotificationMarkRead => "notification.mark_read"@,
        Method::NotificationClear => "notification.clear"@,
        Method::NotificationSend => "notification.send"@,
        Method::SidebarSetStatus => "sidebar.set_status"@,
        Method::SidebarGetMetadata => "sidebar.get_metadata"@,
        Method::BrowserOpen => "browser.open"@,
        Method::BrowserNavigate => "browser.navigate"@,
        Method::BrowserEvalJs => "browser.eval_js"@,
        Method::BrowserGetAccessibilityTree => "browser.get_accessibility_tree"@,
        Method::BrowserClickElement => "browser.click_element"@,
        Method::BrowserTypeText => "browser.type_text"@,
        Method::BrowserScreenshot => "browser.screenshot"@,
        Method::TerminalScreenshot => "terminal.screenshot"@,
        Method::SandboxStatus => "sandbox.status"@,
        Method::SandboxEnable => "sandbox.enable"@,
        Method::SandboxDisable => "sandbox.disable"@,
        Method::SandboxAllow => "sandbox.allow"@,
        Method::SandboxDeny => "sandbox.deny"@,
        Method::AgentQueueSubmit => "agent_queue.submit"@,
        Method::AgentQueueList => "agent_queue.list"@,
        Method::AgentQueueStatus => "agent_queue.status"@,
        Method::AgentQueueCancel => "agent_queue.cancel"@,
        Method::WorkspaceHistoryList => "workspace.history_list"@,
        Method::WorkspaceHistoryReopen => "workspace.history_reopen"@,
        Method::WorkspaceHistoryClear => "workspace.history_clear"@,
        Method::AuditList => "audit.list"@,
        Method::AuditExport => "audit.export"@,
        Method::AuditClear => "audit.clear"@,
        Method::AuditSetSensitivePolicy => "audit.set_sensitive_policy"@,
    }
}

/// The method that a wire name denotes, if any.
pub open spec fn method_for_name(s: Seq<char>) -> Option<Method> {
    if s == "ping"@ {
        Some(Method::Ping)
    } else if s == "get_version"@ {
        Some(Method::GetVersion)
    } else if s == "get_config"@ {
        Some(Method::GetConfig)
    } else if s == "workspace.list"@ {
        Some(Method::WorkspaceList)
    } else if s == "workspace.create"@ {
        Some(Method::WorkspaceCreate)
    } else if s == "workspace.select"@ {
        Some(Method::WorkspaceSelect)
    } else if s == "workspace.close"@ {
        Some(Method::WorkspaceClose)
    } else if s == "workspace.rename"@ {
        Some(Method::WorkspaceRename)
    } else if s == "workspace.get_info"@ {
        Some(Method::WorkspaceGetInfo)
    } else if s == "surface.split_right"@ {
        Some(Method::SurfaceSplitRight)
    } else if s == "surface.split_down"@ {
        Some(Method::SurfaceSplitDown)
    } else if s == "surface.close"@ {
        Some(Method::SurfaceClose)
    } else if s == "surface.focus_next"@ {
        Some(Method::SurfaceFocusNext)
    } else if s == "surface.focus_prev"@ {
        Some(Method::SurfaceFocusPrev)
    } else if s == "surface.focus_direction"@ {
        Some(Method::SurfaceFocusDirection)
    } else if s == "surface.zoom_toggle"@ {
        Some(Method::SurfaceZoomToggle)
    } else if s == "notification.list"@ {
        Some(Method::NotificationList)
    } else if s == "notification.mark_read"@ {
        Some(Method::NotificationMarkRead)
    } else if s == "notification.clear"@ {
        Some(Method::NotificationClear)
    } else if s == "notification.send"@ {
        Some(Method::NotificationSend)
    } else if s == "sidebar.set_status"@ {
        Some(Method::SidebarSetStatus)
    } else if s == "sidebar.get_metadata"@ {
        Some(Method::SidebarGetMetadata)
    } else if s == "browser.open"@ {
        Some(Method::BrowserOpen)
    } else if s == "browser.navigate"@ {
        Some(Method::BrowserNavigate)
    } else if s == "browser.eval_js"@ {
        Some(Method::BrowserEvalJs)
    } else if s == "browser.get_accessibility_tree"@ {
        Some(Method::BrowserGetAccessibilityTree)
    } else if s == "browser.click_element"@ {
        Some(Method::BrowserClickElement)
    } else if s == "browser.type_text"@ {
        Some(Method::BrowserTypeText)
    } else if s == "browser.screenshot"@ {
        Some(Method::BrowserScreenshot)
    } else if s == "terminal.screenshot"@ {
        Some(Method::TerminalScreenshot)
    } else if s == "sandbox.status"@ {
        Some(Method::SandboxStatus)
    } else if s == "sandbox.enable"@ {
        Some(Method::SandboxEnable)
    } else if s == "sandbox.disable"@ {
        Some(Method::SandboxDisable)
    } else if s == "sandbox.allow"@ {
        Some(Method::SandboxAllow)
    } else if s == "sandbox.deny"@ {
        Some(Method::SandboxDeny)
    } else if s == "agent_queue.submit"@ {
        Some(Method::AgentQueueSubmit)
    } else if s == "agent_queue.list"@ {
        Some(Method::AgentQueueList)
    } else if s == "agent_queue.status"@ {
        Some(Method::AgentQueueStatus)
    } else if s == "agent_queue.cancel"@ {
        Some(Method::AgentQueueCancel)
    } else if s == "workspace.history_list"@ {
        Some(Method::WorkspaceHistoryList)
    } else if s == "workspace.history_reopen"@ {
        Some(Method::WorkspaceHistoryReopen)
    } else if s == "workspace.history_clear"@ {
        Some(Method::WorkspaceHistoryClear)
    } else if s == "audit.list"@ {
        Some(Method::AuditList)
    } else if s == "audit.export"@ {
        Some(Method::AuditExport)
    } else if s == "audit.clear"@ {
        Some(Method::AuditClear)
    } else if s == "audit.set_sensitive_policy"@ {
        Some(Method::AuditSetSensitivePolicy)
    } else {
        None
    }
}

/// Every method is found again from its wire name, and a wire name denotes a
/// method only when it is that method's name: each method has exactly one name.
pub proof fn lemma_method_name_roundtrip(m: Method, s: Seq<char>)
    ensures
        method_for_name(method_name(m)) == Some(m),
        method_for_name(s) == Some(m) <==> s == method_name(m),
{
    reveal_strlit("ping");
    reveal_strlit("get_version");
    reveal_strlit("get_config");
    reveal_strlit("workspace.list");
    reveal_strlit("workspace.create");
    reveal_strlit("workspace.select");
    reveal_strlit("workspace.close");
    reveal_strlit("workspace.rename");
    reveal_strlit("workspace.get_info");
    reveal_strlit("surface.split_right");
    reveal_strlit("surface.split_down");
    reveal_strlit("surface.close");
    reveal_strlit("surface.focus_next");
    reveal_strlit("surface.focus_prev");
    reveal_strlit("surface.focus_direction");
    reveal_strlit("surface.zoom_toggle");
    reveal_strlit("notification.list");
    reveal_strlit("notification.mark_read");
    reveal_strlit("notification.clear");
    reveal_strlit("notification.send");
    reveal_strlit("sidebar.set_status");
    reveal_strlit("sidebar.get_metadata");
    reveal_strlit("browser.open");
    reveal_strlit("browser.navigate");
    reveal_strlit("browser.eval_js");
    reveal_strlit("browser.get_accessibility_tree");
    reveal_strlit("browser.click_element");
    reveal_strlit("browser.type_text");
    reveal_strlit("browser.screenshot");
    reveal_strlit("terminal.screenshot");
    reveal_strlit("sandbox.status");
    reveal_strlit("sandbox.enable");
    reveal_strlit("sandbox.disable");
    reveal_strlit("sandbox.allow");
    reveal_strlit("sandbox.deny");
    reveal_strlit("agent_queue.submit");
    reveal_strlit("agent_queue.list");
    reveal_strlit("agent_queue.status");
    reveal_strlit("agent_queue.cancel");
    reveal_strlit("workspace.history_list");
    reveal_strlit("workspace.history_reopen");
    reveal_strlit("workspace.history_clear");
    reveal_strlit("audit.list");
    reveal_strlit("audit.export");
    reveal_strlit("audit.clear");
    reveal_strlit("audit.set_sensitive_policy");
    assert("ping"@.len() == 4);
    assert("get_version"@.len() == 11);
    assert("get_config"@.len() == 10);
    assert("workspace.list"@.len() == 14);
    assert("workspace.create"@.len() == 16);
    assert("workspace.select"@.len() == 16);
    assert("workspace.close"@.len() == 15);
    assert("workspace.rename"@.len() == 16);
    assert("workspace.get_info"@.len() == 18);
    assert("surface.split_right"@.len() == 19);
    assert("surface.split_down"@.len() == 18);
    assert("surface.close"@.len() == 13);
    assert("surface.focus_next"@.len() == 18);
    assert("surface.focus_prev"@.len() == 18);
    assert("surface.focus_direction"@.len() == 23);
    assert("surface.zoom_toggle"@.len() == 19);
    assert("notification.list"@.len() == 17);
    assert("notification.mark_read"@.len() == 22);
    assert("notification.clear"@.len() == 18);
    assert("notification.send"@.len() == 17);
    assert("sidebar.set_status"@.len() == 18);
    assert("sidebar.get_metadata"@.len() == 20);
    assert("browser.open"@.len() == 12);
    assert("browser.navigate"@.len() == 16);
    assert("browser.eval_js"@.len() == 15);
    assert("browser.get_accessibility_tree"@.len() == 30);
    assert("browser.click_element"@.len() == 21);
    assert("browser.type_text"@.len() == 17);
    assert("browser.screenshot"@.len() == 18);
    assert("terminal.screenshot"@.len() == 19);
    assert("sandbox.status"@.len() == 14);
    assert("sandbox.enable"@.len() == 14);
    assert("sandbox.disable"@.len() == 15);
    assert("sandbox.allow"@.len() == 13);
    assert("sandbox.deny"@.len() == 12);
    assert("agent_queue.submit"@.len() == 18);
    assert("agent_queue.list"@.len() == 16);
    assert("agent_queue.status"@.len() == 18);
    assert("agent_queue.cancel"@.len() == 18);
    assert("workspace.history_list"@.len() == 22);
    assert("workspace.history_reopen"@.len() == 24);
    assert("workspace.history_clear"@.len() == 23);
    assert("audit.list"@.len() == 10);
    assert("audit.export"@.len() == 12);
    assert("audit.clear"@.len() == 11);
    assert("audit.set_sensitive_policy"@.len() == 26);
    // Names of equal length differ at some position.
    match m {
        Method::WorkspaceSelect => {
            assert("workspace.select"@[10] != "workspace.create"@[10]);
        },
        Method::WorkspaceRename => {
            assert("workspace.rename"@[10] != "workspace.create"@[10]);
            assert("workspace.rename"@[10] != "workspace.select"@[10]);
        },
        Method::SurfaceSplitDown => {
            assert("surface.split_down"@[0] != "workspace.get_info"@[0]);
        },
        Method::SurfaceFocusNext => {
            assert("surface.focus_next"@[0] != "workspace.get_info"@[0]);
            assert("surface.focus_next"@[8] != "surface.split_down"@[8]);
        },
        Method::SurfaceFocusPrev => {
            assert("surface.focus_prev"@[0] != "workspace.get_info"@[0]);
            assert("surface.focus_prev"@[8] != "surface.split_down"@[8]);
            assert("surface.focus_prev"@[14] != "surface.focus_next"@[14]);
        },
        Method::SurfaceZoomToggle => {
            assert("surface.zoom_toggle"@[8] != "surface.split_right"@[8]);
        },
        Method::NotificationClear => {
            assert("notification.clear"@[0] != "workspace.get_info"@[0]);
            assert("notification.clear"@[0] != "surface.split_down"@[0]);
            assert("notification.clear"@[0] != "surface.focus_next"@[0]);
            assert("notification.clear"@[0] != "surface.focus_prev"@[0]);
        },
        Method::NotificationSend => {
            assert("notification.send"@[13] != "notification.list"@[13]);
        },
        Method::SidebarSetStatus => {
            assert("sidebar.set_status"@[0] != "workspace.get_info"@[0]);
            assert("sidebar.set_status"@[1] != "surface.split_down"@[1]);
            assert("sidebar.set_status"@[1] != "surface.focus_next"@[1]);
            assert("sidebar.set_status"@[1] != "surface.focus_prev"@[1]);
            assert("sidebar.set_status"@[0] != "notification.clear"@[0]);
        },
        Method::BrowserNavigate => {
            assert("browser.navigate"@[0] != "workspace.create"@[0]);
            assert("browser.navigate"@[0] != "workspace.select"@[0]);
            assert("browser.navigate"@[0] != "workspace.rename"@[0]);
        },
        Method::BrowserEvalJs => {
            assert("browser.eval_js"@[0] != "workspace.close"@[0]);
        },
        Method::BrowserTypeText => {
            assert("browser.type_text"@[0] != "notification.list"@[0]);
            assert("browser.type_text"@[0] != "notification.send"@[0]);
        },
        Method::BrowserScreenshot => {
            assert("browser.screenshot"@[0] != "workspace.get_info"@[0]);
            assert("browser.screenshot"@[0] != "surface.split_down"@[0]);
            assert("browser.screenshot"@[0] != "surface.focus_next"@[0]);
            assert("browser.screenshot"@[0] != "surface.focus_prev"@[0]);
            assert("browser.screenshot"@[0] != "notification.clear"@[0]);
            assert("browser.screenshot"@[0] != "sidebar.set_status"@[0]);
        },
        Method::TerminalScreenshot => {
            assert("terminal.screenshot"@[0] != "surface.split_right"@[0]);
            assert("terminal.screenshot"@[0] != "surface.zoom_toggle"@[0]);
        },
        Method::SandboxStatus => {
            assert("sandbox.status"@[0] != "workspace.list"@[0]);
        },
        Method::SandboxEnable => {
            assert("sandbox.enable"@[0] != "workspace.list"@[0]);
            assert("sandbox.enable"@[8] != "sandbox.status"@[8]);
        },
        Method::SandboxDisable => {
            assert("sandbox.disable"@[0] != "workspace.close"@[0]);
            assert("sandbox.disable"@[0] != "browser.eval_js"@[0]);
        },
        Method::SandboxAllow => {
            assert("sandbox.allow"@[1] != "surface.close"@[1]);
        },
        Method::SandboxDeny => {
            assert("sandbox.deny"@[0] != "browser.open"@[0]);
        },
        Method::AgentQueueSubmit => {
            assert("agent_queue.submit"@[0] != "workspace.get_info"@[0]);
            assert("agent_queue.submit"@[0] != "surface.split_down"@[0]);
            assert("agent_queue.submit"@[0] != "surface.focus_next"@[0]);
            assert("agent_queue.submit"@[0] != "surface.focus_prev"@[0]);
            assert("agent_queue.submit"@[0] != "notification.clear"@[0]);
            assert("agent_queue.submit"@[0] != "sidebar.set_status"@[0]);
            assert("agent_queue.submit"@[0] != "browser.screenshot"@[0]);
        },
        Method::AgentQueueList => {
            assert("agent_queue.list"@[0] != "workspace.create"@[0]);
            assert("agent_queue.list"@[0] != "workspace.select"@[0]);
            assert("agent_queue.list"@[0] != "workspace.rename"@[0]);
            assert("agent_queue.list"@[0] != "browser.navigate"@[0]);
        },
        Method::AgentQueueStatus => {
            assert("agent_queue.status"@[0] != "workspace.get_info"@[0]);
            assert("agent_queue.status"@[0] != "surface.split_down"@[0]);
            assert("agent_queue.status"@[0] != "surface.focus_next"@[0]);
            assert("agent_queue.status"@[0] != "surface.focus_prev"@[0]);
            assert("agent_queue.status"@[0] != "notification.clear"@[0]);
            assert("agent_queue.status"@[0] != "sidebar.set_status"@[0]);
            assert("agent_queue.status"@[0] != "browser.screenshot"@[0]);
            assert("agent_queue.status"@[13] != "agent_queue.submit"@[13]);
        },
        Method::AgentQueueCancel => {
            assert("agent_queue.cancel"@[0] != "workspace.get_info"@[0]);
            assert("agent_queue.cancel"@[0] != "surface.split_down"@[0]);
            assert("agent_queue.cancel"@[0] != "surface.focus_next"@[0]);
            assert("agent_queue.cancel"@[0] != "surface.focus_prev"@[0]);
            assert("agent_queue.cancel"@[0] != "notification.clear"@[0]);
            assert("agent_queue.cancel"@[0] != "sidebar.set_status"@[0]);
            assert("agent_queue.cancel"@[0] != "browser.screenshot"@[0]);
            assert("agent_queue.cancel"@[12] != "agent_queue.submit"@[12]);
            assert("agent_queue.cancel"@[12] != "agent_queue.status"@[12]);
        },
        Method::WorkspaceHistoryList => {
            assert("workspace.history_list"@[0] != "notification.mark_read"@[0]);
        },
        Method::WorkspaceHistoryClear => {
            assert("workspace.history_clear"@[0] != "surface.focus_direction"@[0]);
        },
        Method::AuditList => {
            assert("audit.list"@[0] != "get_config"@[0]);
        },
        Method::AuditExport => {
            assert("audit.export"@[0] != "browser.open"@[0]);
            assert("audit.export"@[0] != "sandbox.deny"@[0]);
        },
        Method::AuditClear => {
            assert("audit.clear"@[0] != "get_version"@[0]);
        },
        _ => {},
    }
}

impl Method {
    /// Parse a method name string into a Method enum.
    pub fn parse(s: &str) -> (r: Option<Self>)
        ensures
            r == method_for_name(s@),
    {
        let v = chars_of(s);
        let v = v.as_slice();
        if chars_eq_str(v, "ping") {
            Some(Self::Ping)
        } else if chars_eq_str(v, "get_version") {
            Some(Self::GetVersion)
        } else if chars_eq_str(v, "get_config") {
            Some(Self::GetConfig)
        } else if chars_eq_str(v, "workspace.list") {
            Some(Self::WorkspaceList)
        } else if chars_eq_str(v, "workspace.create") {
            Some(Self::WorkspaceCreate)
        } else if chars_eq_str(v, "workspace.select") {
            Some(Self::WorkspaceSelect)
        } else if chars_eq_str(v, "workspace.close") {
            Some(Self::WorkspaceClose)
        } else if chars_eq_str(v, "workspace.rename") {
            Some(Self::WorkspaceRename)
        } else if chars_eq_str(v, "workspace.get_info") {
            Some(Self::WorkspaceGetInfo)
        } else if chars_eq_str(v, "surface.split_right") {
            Some(Self::SurfaceSplitRight)
        } else if chars_eq_str(v, "surface.split_down") {
            Some(Self::SurfaceSplitDown)
        } else if chars_eq_str(v, "surface.close") {
            Some(Self::SurfaceClose)
        } else if chars_eq_str(v, "surface.focus_next") {
            Some(Self::SurfaceFocusNext)
        } else if chars_eq_str(v, "surface.focus_prev") {
            Some(Self::SurfaceFocusPrev)
        } else if chars_eq_str(v, "surface.focus_direction") {
            Some(Self::SurfaceFocusDirection)
        } else if chars_eq_str(v, "surface.zoom_toggle") {
            Some(Self::SurfaceZoomToggle)
        } else if chars_eq_str(v, "notification.list") {
            Some(Self::NotificationList)
        } else if chars_eq_str(v, "notification.mark_read") {
            Some(Self::NotificationMarkRead)
        } else if chars_eq_str(v, "notification.clear") {
            Some(Self::NotificationClear)
        } else if chars_eq_str(v, "notification.send") {
            Some(Self::NotificationSend)
        } else if chars_eq_str(v, "sidebar.set_status") {
            Some(Self::SidebarSetStatus)
        } else if chars_eq_str(v, "sidebar.get_metadata") {
            Some(Self::SidebarGetMetadata)
        } else if chars_eq_str(v, "browser.open") {
            Some(Self::BrowserOpen)
        } else if chars_eq_str(v, "browser.navigate") {
            Some(Self::BrowserNavigate)
        } else if chars_eq_str(v, "browser.eval_js") {
            Some(Self::BrowserEvalJs)
        } else if chars_eq_str(v, "browser.get_accessibility_tree") {
            Some(Self::BrowserGetAccessibilityTree)
        } else if chars_eq_str(v, "browser.click_element") {
            Some(Self::BrowserClickElement)
        } else if chars_eq_str(v, "browser.type_text") {
            Some(Self::BrowserTypeText)
        } else if chars_eq_str(v, "browser.screenshot") {
            Some(Self::BrowserScreenshot)
        } else if chars_eq_str(v, "terminal.screenshot") {
            Some(Self::TerminalScreenshot)
        } else if chars_eq_str(v, "sandbox.status") {
            Some(Self::SandboxStatus)
        } else if chars_eq_str(v, "sandbox.enable") {
            Some(Self::SandboxEnable)
        } else if chars_eq_str(v, "sandbox.disable") {
            Some(Self::SandboxDisable)
        } else if chars_eq_str(v, "sandbox.allow") {
            Some(Self::SandboxAllow)
        } else if chars_eq_str(v, "sandbox.deny") {
            Some(Self::SandboxDeny)
        } else if chars_eq_str(v, "agent_queue.submit") {
            Some(Self::AgentQueueSubmit)
        } else if chars_eq_str(v, "agent_queue.list") {
            Some(Self::AgentQueueList)
        } else if chars_eq_str(v, "agent_queue.status") {
            Some(Self::AgentQueueStatus)
        } else if chars_eq_str(v, "agent_queue.cancel") {
            Some(Self::AgentQueueCancel)
        } else if chars_eq_str(v, "workspace.history_list") {
            Some(Self::WorkspaceHistoryList)
        } else if chars_eq_str(v, "workspace.history_reopen") {
            Some(Self::WorkspaceHistoryReopen)
        } else if chars_eq_str(v, "workspace.history_clear") {
            Some(Self::WorkspaceHistoryClear)
        } else if chars_eq_str(v, "audit.list") {
            Some(Self::AuditList)
        } else if chars_eq_str(v, "audit.export") {
            Some(Self::AuditExport)
        } else if chars_eq_str(v, "audit.clear") {
            Some(Self::AuditClear)
        } else if chars_eq_str(v, "audit.set_sensitive_policy") {
            Some(Self::AuditSetSensitivePolicy)
        } else {
            None
        }
    }
}


/// The `Debug` name of each method: the variant's name.
pub open spec fn method_debug_name(m: Method) -> Seq<char> {
    match m {
        Method::Ping => "Ping"@,
        Method::GetVersion => "GetVersion"@,
        Method::GetConfig => "GetConfig"@,
        Method::WorkspaceList => "WorkspaceList"@,
        Method::WorkspaceCreate => "WorkspaceCreate"@,
        Method::WorkspaceSelect => "WorkspaceSelect"@,
        Method::WorkspaceClose => "WorkspaceClose"@,
        Method::WorkspaceRename => "WorkspaceRename"@,
        Method::WorkspaceGetInfo => "WorkspaceGetInfo"@,
        Method::SurfaceSplitRight => "SurfaceSplitRight"@,
        Method::SurfaceSplitDown => "SurfaceSplitDown"@,
        Method::SurfaceClose => "SurfaceClose"@,
        Method::SurfaceFocusNext => "SurfaceFocusNext"@,
        Method::SurfaceFocusPrev => "SurfaceFocusPrev"@,
        Method::SurfaceFocusDirection => "SurfaceFocusDirection"@,
        Method::SurfaceZoomToggle => "SurfaceZoomToggle"@,
        Method::NotificationList => "NotificationList"@,
        Method::NotificationMarkRead => "NotificationMarkRead"@,
        Method::NotificationClear => "NotificationClear"@,
        Method::NotificationSend => "NotificationSend"@,
        Method::SidebarSetStatus => "SidebarSetStatus"@,
        Method::SidebarGetMetadata => "SidebarGetMetadata"@,
        Method::BrowserOpen => "BrowserOpen"@,
        Method::BrowserNavigate => "BrowserNavigate"@,
        Method::BrowserEvalJs => "BrowserEvalJs"@,
        Method::BrowserGetAccessibilityTree => "BrowserGetAccessibilityTree"@,
        Method::BrowserClickElement => "BrowserClickElement"@,
        Method::BrowserTypeText => "BrowserTypeText"@,
        Method::BrowserScreenshot => "BrowserScreenshot"@,
        Method::TerminalScreenshot => "TerminalScreenshot"@,
        Method::SandboxStatus => "SandboxStatus"@,
        Method::SandboxEnable => "SandboxEnable"@,
        Method::SandboxDisable => "SandboxDisable"@,
        Method::SandboxAllow => "SandboxAllow"@,
        Method::SandboxDeny => "SandboxDeny"@,
        Method::AgentQueueSubmit => "AgentQueueSubmit"@,
        Method::AgentQueueList => "AgentQueueList"@,
        Method::AgentQueueStatus => "AgentQueueStatus"@,
        Method::AgentQueueCancel => "AgentQueueCancel"@,
        Method::WorkspaceHistoryList => "WorkspaceHistoryList"@,
        Method::WorkspaceHistoryReopen => "WorkspaceHistoryReopen"@,
        Method::WorkspaceHistoryClear => "WorkspaceHistoryClear"@,
        Method::AuditList => "AuditList"@,
        Method::AuditExport => "AuditExport"@,
        Method::AuditClear => "AuditClear"@,
        Method::AuditSetSensitivePolicy => "AuditSetSensitivePolicy"@,
    }
}

impl Method {
    /// The `Debug` name of the method.
    pub fn debug_name(&self) -> (r: &'static str)
        ensures
            r@ == method_debug_name(*self),
    {
        match self {
            Method::Ping => "Ping",
            Method::GetVersion => "GetVersion",
            Method::GetConfig => "GetConfig",
            Method::WorkspaceList => "WorkspaceList",
            Method::WorkspaceCreate => "WorkspaceCreate",
            Method::WorkspaceSelect => "WorkspaceSelect",
            Method::WorkspaceClose => "WorkspaceClose",
            Method::WorkspaceRename => "WorkspaceRename",
            Method::WorkspaceGetInfo => "WorkspaceGetInfo",
            Method::SurfaceSplitRight => "SurfaceSplitRight",
            Method::SurfaceSplitDown => "SurfaceSplitDown",
            Method::SurfaceClose => "SurfaceClose",
            Method::SurfaceFocusNext => "SurfaceFocusNext",
            Method::SurfaceFocusPrev => "SurfaceFocusPrev",
            Method::SurfaceFocusDirection => "SurfaceFocusDirection",
            Method::SurfaceZoomToggle => "SurfaceZoomToggle",
            Method::NotificationList => "NotificationList",
            Method::NotificationMarkRead => "NotificationMarkRead",
            Method::NotificationClear => "NotificationClear",
            Method::NotificationSend => "NotificationSend",
            Method::SidebarSetStatus => "SidebarSetStatus",
            Method::SidebarGetMetadata => "SidebarGetMetadata",
            Method::BrowserOpen => "BrowserOpen",
            Method::BrowserNavigate => "BrowserNavigate",
            Method::BrowserEvalJs => "BrowserEvalJs",
            Method::BrowserGetAccessibilityTree => "BrowserGetAccessibilityTree",
            Method::BrowserClickElement => "BrowserClickElement",
            Method::BrowserTypeText => "BrowserTypeText",
            Method::BrowserScreenshot => "BrowserScreenshot",
            Method::TerminalScreenshot => "TerminalScreenshot",
            Method::SandboxStatus => "SandboxStatus",
            Method::SandboxEnable => "SandboxEnable",
            Method::SandboxDisable => "SandboxDisable",
            Method::SandboxAllow => "SandboxAllow",
            Method::SandboxDeny => "SandboxDeny",
            Method::AgentQueueSubmit => "AgentQueueSubmit",
            Method::AgentQueueList => "AgentQueueList",
            Method::AgentQueueStatus => "AgentQueueStatus",
            Method::AgentQueueCancel => "AgentQueueCancel",
            Method::WorkspaceHistoryList => "WorkspaceHistoryList",
            Method::WorkspaceHistoryReopen => "WorkspaceHistoryReopen",
            Method::WorkspaceHistoryClear => "WorkspaceHistoryClear",
            Method::AuditList => "AuditList",
            Method::AuditExport => "AuditExport",
            Method::AuditClear => "AuditClear",
            Method::AuditSetSensitivePolicy => "AuditSetSensitivePolicy",
        }
    }
}

} // verus!
