//! Parameter and result types of the RPC methods that the library knows.
use vstd::prelude::*;

verus! {

/// Parameters of `workspace.create`.
#[derive(Debug, Clone)]
pub struct WorkspaceCreateParams {
    pub title: Option<String>,
    pub cwd: Option<String>,
}

/// Parameters of `workspace.select`: a workspace by id (its UUID as a
/// 128-bit integer) or by position; both may be left out.
#[derive(Debug, Clone, Copy, PartialEq, Eq, Structural)]
pub struct WorkspaceSelectParams {
    pub id: Option<u128>,
    pub index: Option<usize>,
}

/// Parameters of `workspace.close`: the workspace's id (its UUID as a
/// 128-bit integer), where given.
#[derive(Debug, Clone, Copy, PartialEq, Eq, Structural)]
pub struct WorkspaceCloseParams {
    pub id: Option<u128>,
}

/// Parameters of `workspace.rename`: the workspace's id (its UUID as a
/// 128-bit integer), where given, and the new title.
#[derive(Debug, Clone)]
pub struct WorkspaceRenameParams {
    pub id: Option<u128>,
    pub title: String,
}

/// Parameters of `workspace.get_info`: the workspace's id (its UUID as a
/// 128-bit integer), where given.
#[derive(Debug, Clone, Copy, PartialEq, Eq, Structural)]
pub struct WorkspaceGetInfoParams {
    pub id: Option<u128>,
}

/// Parameters of `surface.focus_direction`: `up`, `down`, `left` or `right`.
#[derive(Debug, Clone)]
pub struct SurfaceFocusDirectionParams {
    pub direction: String,
}

/// The state of an agent-queue entry.
#[derive(Debug, Clone, Copy, PartialEq, Eq, Structural)]
pub enum AgentQueueStatus {
    Queued,
    Running,
    Paused,
    Completed,
    Failed,
    Cancelled,
}

/// The wire name of a queue state (snake case).
pub open spec fn queue_status_name(s: AgentQueueStatus) -> Seq<char> {
    match s {
        AgentQueueStatus::Queued => "queued"@,
        AgentQueueStatus::Running => "running"@,
        AgentQueueStatus::Paused => "paused"@,
        AgentQueueStatus::Completed => "completed"@,
        AgentQueueStatus::Failed => "failed"@,
        AgentQueueStatus::Cancelled => "cancelled"@,
    }
}

impl AgentQueueStatus {
    /// The wire name of the state.
    pub fn wire_name(&self) -> (r: &'static str)
        ensures
            r@ == queue_status_name(*self),
    {
        match self {
            AgentQueueStatus::Queued => "queued",
            AgentQueueStatus::Running => "running",
            AgentQueueStatus::Paused => "paused",
            AgentQueueStatus::Completed => "completed",
            AgentQueueStatus::Failed => "failed",
            AgentQueueStatus::Cancelled => "cancelled",
        }
    }
}

/// The result of `system.version`.
#[derive(Debug, Clone)]
pub struct VersionInfo {
    pub version: String,
    pub git_hash: Option<String>,
}

/// The region of a browser screenshot when none is given.
pub fn default_region() -> (r: String)
    ensures
        r@ == "visible"@,
{
    "visible".to_owned()
}

} // verus!
