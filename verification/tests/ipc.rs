use serde_json::Value;
use thane::ipc::{
    auth_reply_denied, rejection_line, request_text, token_denied_line, token_from_line, wants_reply,
    TOKEN_ACCEPTED_LINE,
};
use thane::protocol::RpcResponse;
use thane::workspace_status::{leader_command, new_workspace_title, overall_agent_status, AgentStatus, LeaderCommand};

#[test]
fn rejection_and_token_lines() {
    assert_eq!(
        rejection_line("access denied: invalid token"),
        "{\"jsonrpc\":\"2.0\",\"id\":null,\"error\":{\"code\":-32600,\"message\":\"access denied: invalid token\"}}\n"
    );
    assert_eq!(token_denied_line("bad"), "{\"auth\":\"denied\",\"error\":\"bad\"}\n");
    assert_eq!(TOKEN_ACCEPTED_LINE, "{\"auth\":\"ok\"}\n");
    assert!(auth_reply_denied(&token_denied_line("x")));
    assert!(!auth_reply_denied(TOKEN_ACCEPTED_LINE));
}

#[test]
fn request_lines_and_tokens() {
    assert_eq!(request_text("  {\"a\":1}\n"), Some("{\"a\":1}".to_string()));
    assert_eq!(request_text(" \r\n"), None);
    assert_eq!(token_from_line("secret123\n"), "secret123");
}

#[test]
fn notifications_get_no_reply() {
    let ok = RpcResponse::success(None, Value::Null);
    assert!(!wants_reply(&ok));
    let with_id = RpcResponse::success(Some(Value::Number(3.into())), Value::Null);
    assert!(wants_reply(&with_id));
    assert!(wants_reply(&RpcResponse::parse_error()));
}

#[test]
fn leader_keys() {
    assert_eq!(leader_command('n'), LeaderCommand::NextWorkspace);
    assert_eq!(leader_command('p'), LeaderCommand::PrevWorkspace);
    assert_eq!(leader_command('c'), LeaderCommand::NewWorkspace);
    assert_eq!(leader_command('x'), LeaderCommand::CloseWorkspace);
    assert_eq!(leader_command(','), LeaderCommand::RenameWorkspace);
    assert_eq!(leader_command('1'), LeaderCommand::SelectWorkspace(0));
    assert_eq!(leader_command('9'), LeaderCommand::SelectWorkspace(8));
    assert_eq!(leader_command('0'), LeaderCommand::NotConsumed);
    assert_eq!(leader_command('q'), LeaderCommand::NotConsumed);
    assert_eq!(new_workspace_title(2), "Workspace 3");
}

#[test]
fn status_bar_agent_status() {
    assert_eq!(overall_agent_status(&[]), AgentStatus::Inactive);
    assert_eq!(overall_agent_status(&[AgentStatus::Inactive, AgentStatus::Stalled]), AgentStatus::Stalled);
    assert_eq!(
        overall_agent_status(&[AgentStatus::Stalled, AgentStatus::Active, AgentStatus::Inactive]),
        AgentStatus::Active
    );
}
