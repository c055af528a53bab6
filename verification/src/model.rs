//! The data that sessions, hosts and pull request tracking share.

use vstd::prelude::*;

use crate::time::Timestamp;

verus! {

/// How a session's agent is set up.
#[derive(Debug, Clone, PartialEq, Eq)]
pub struct Agent {
    pub harness: String,
    pub model: String,
    pub instructions: String,
    pub mcp_servers: Vec<String>,
}

/// Where a session runs.
#[derive(Debug, Clone, PartialEq, Eq)]
pub struct Environment {
    pub kind: String,
    pub repo: Option<String>,
    pub base_branch: Option<String>,
}

/// What became of a session's work.
#[derive(Debug, Clone, PartialEq, Eq)]
pub struct SessionOutcome {
    pub kind: String,
    pub pr_url: Option<String>,
    pub branch: Option<String>,
}

/// The state of a session.
#[derive(Debug, Clone, Copy, PartialEq, Eq, Structural)]
pub enum SessionStatus {
    Pending,
    Running,
    Completed,
    Failed,
    Cancelled,
}

/// The state of a tracked pull request.
#[derive(Debug, Clone, Copy, PartialEq, Eq, Structural)]
pub enum PrState {
    ReviewPending,
    ChangesRequested,
    Approved,
    Merged,
    Closed,
    SyncError,
}

/// The state of a pull request's check runs.
#[derive(Debug, Clone, Copy, PartialEq, Eq, Structural)]
pub enum ChecksState {
    Pending,
    Passing,
    Failing,
}

/// The last observation of a tracked pull request.
#[derive(Debug, Clone, Copy, PartialEq, Eq, Structural)]
pub struct PrStatus {
    pub state: PrState,
    pub checks: Option<ChecksState>,
    pub last_synced_at: Timestamp,
}

/// How much of an event may leave the machine.
#[derive(Debug, Clone, Copy, PartialEq, Eq, Structural)]
pub enum EventFidelity {
    Full,
    Redacted,
}

/// A workspace's identifier.
#[derive(Debug, Clone, PartialEq, Eq)]
pub struct WorkspaceId(pub String);

impl View for WorkspaceId {
    type V = Seq<char>;

    open spec fn view(&self) -> Seq<char> {
        self.0@
    }
}

impl WorkspaceId {
    /// The workspace called `id`.
    pub fn new(id: &str) -> (r: WorkspaceId)
        ensures
            r@ == id@,
    {
        WorkspaceId(id.to_owned())
    }

    /// The same identifier.
    pub fn copied(&self) -> (r: WorkspaceId)
        ensures
            r@ == self@,
    {
        WorkspaceId(self.0.clone())
    }
}

impl Default for WorkspaceId {
    /// The only workspace of a single-tenant server.
    fn default() -> (r: WorkspaceId)
        ensures
            r@ == "default"@,
    {
        WorkspaceId("default".to_owned())
    }
}

/// One agent session.
#[derive(Debug, Clone, PartialEq, Eq)]
pub struct Session {
    pub id: String,
    pub workspace_id: WorkspaceId,
    pub agent: Agent,
    pub environment: Environment,
    pub input: String,
    pub status: SessionStatus,
    pub host_id: Option<String>,
    pub lease_expires_at: Option<Timestamp>,
    pub started_at: Option<Timestamp>,
    pub finished_at: Option<Timestamp>,
    pub stop_reason: Option<String>,
    pub error: Option<String>,
    pub outcome: Option<SessionOutcome>,
    pub pr_status: Option<PrStatus>,
    pub parent_session_id: Option<String>,
    pub cancel_requested: bool,
    pub created_at: Timestamp,
    pub updated_at: Timestamp,
}

/// The name of a session status.
pub open spec fn status_name(status: SessionStatus) -> Seq<char> {
    match status {
        SessionStatus::Pending => "pending"@,
        SessionStatus::Running => "running"@,
        SessionStatus::Completed => "completed"@,
        SessionStatus::Failed => "failed"@,
        SessionStatus::Cancelled => "cancelled"@,
    }
}

/// The name of a pull request state.
pub open spec fn pr_state_name(state: PrState) -> Seq<char> {
    match state {
        PrState::ReviewPending => "review_pending"@,
        PrState::ChangesRequested => "changes_requested"@,
        PrState::Approved => "approved"@,
        PrState::Merged => "merged"@,
        PrState::Closed => "closed"@,
        PrState::SyncError => "sync_error"@,
    }
}

/// The name of a checks state.
pub open spec fn checks_name(checks: ChecksState) -> Seq<char> {
    match checks {
        ChecksState::Pending => "pending"@,
        ChecksState::Passing => "passing"@,
        ChecksState::Failing => "failing"@,
    }
}

/// A session in this status never changes status again.
pub open spec fn terminal_status(status: SessionStatus) -> bool {
    status == SessionStatus::Completed || status == SessionStatus::Failed || status
        == SessionStatus::Cancelled
}

/// A pull request in this state is done: merged or closed.
pub open spec fn terminal_pr_state(state: PrState) -> bool {
    state == PrState::Merged || state == PrState::Closed
}

impl SessionStatus {
    /// The status's name.
    pub fn as_str(&self) -> (r: &'static str)
        ensures
            r@ == status_name(*self),
    {
        match self {
            SessionStatus::Pending => "pending",
            SessionStatus::Running => "running",
            SessionStatus::Completed => "completed",
            SessionStatus::Failed => "failed",
            SessionStatus::Cancelled => "cancelled",
        }
    }

    /// True once the session is over.
    pub fn is_terminal(&self) -> (r: bool)
        ensures
            r == terminal_status(*self),
    {
        match self {
            SessionStatus::Completed | SessionStatus::Failed | SessionStatus::Cancelled => true,
            _ => false,
        }
    }
}

impl PrState {
    /// The state's name.
    pub fn as_str(&self) -> (r: &'static str)
        ensures
            r@ == pr_state_name(*self),
    {
        match self {
            PrState::ReviewPending => "review_pending",
            PrState::ChangesRequested => "changes_requested",
            PrState::Approved => "approved",
            PrState::Merged => "merged",
            PrState::Closed => "closed",
            PrState::SyncError => "sync_error",
        }
    }

    /// True once the pull request is merged or closed.
    pub fn is_terminal(&self) -> (r: bool)
        ensures
            r == terminal_pr_state(*self),
    {
        match self {
            PrState::Merged | PrState::Closed => true,
            _ => false,
        }
    }
}

impl ChecksState {
    /// The state's name.
    pub fn as_str(&self) -> (r: &'static str)
        ensures
            r@ == checks_name(*self),
    {
        match self {
            ChecksState::Pending => "pending",
            ChecksState::Passing => "passing",
            ChecksState::Failing => "failing",
        }
    }
}

/// The names by which states are stored and shown, and which states are the
/// last: a session that completed, failed or was cancelled, a pull request
/// that is merged or closed.
pub proof fn states_have_their_names(
    status: &SessionStatus,
    state: &PrState,
    checks: &ChecksState,
    status_text: &'static str,
    state_text: &'static str,
    checks_text: &'static str,
    over: bool,
    done: bool,
)
    requires
        call_ensures(SessionStatus::as_str, (status,), status_text),
        call_ensures(PrState::as_str, (state,), state_text),
        call_ensures(ChecksState::as_str, (checks,), checks_text),
        call_ensures(SessionStatus::is_terminal, (status,), over),
        call_ensures(PrState::is_terminal, (state,), done),
    ensures
        *status is Pending ==> status_text@ == "pending"@ && !over,
        *status is Running ==> status_text@ == "running"@ && !over,
        *status is Completed ==> status_text@ == "completed"@ && over,
        *status is Failed ==> status_text@ == "failed"@ && over,
        *status is Cancelled ==> status_text@ == "cancelled"@ && over,
        *state is ReviewPending ==> state_text@ == "review_pending"@ && !done,
        *state is ChangesRequested ==> state_text@ == "changes_requested"@ && !done,
        *state is Approved ==> state_text@ == "approved"@ && !done,
        *state is Merged ==> state_text@ == "merged"@ && done,
        *state is Closed ==> state_text@ == "closed"@ && done,
        *state is SyncError ==> state_text@ == "sync_error"@ && !done,
        *checks is Pending ==> checks_text@ == "pending"@,
        *checks is Passing ==> checks_text@ == "passing"@,
        *checks is Failing ==> checks_text@ == "failing"@,
{
}

/// Different states have different names.
pub proof fn names_tell_states_apart(a: SessionStatus, b: SessionStatus, p: PrState, q: PrState)
    ensures
        status_name(a) == status_name(b) ==> a == b,
        pr_state_name(p) == pr_state_name(q) ==> p == q,
{
    reveal_strlit("pending");
    reveal_strlit("running");
    reveal_strlit("completed");
    reveal_strlit("failed");
    reveal_strlit("cancelled");
    reveal_strlit("review_pending");
    reveal_strlit("changes_requested");
    reveal_strlit("approved");
    reveal_strlit("merged");
    reveal_strlit("closed");
    reveal_strlit("sync_error");
    assert("pending"@[0] != "running"@[0]);
    assert("completed"@[1] != "cancelled"@[1]);
    assert("merged"@[0] != "closed"@[0]);
    assert("pending"@.len() == 7 && "running"@.len() == 7 && "completed"@.len() == 9
        && "failed"@.len() == 6 && "cancelled"@.len() == 9);
    assert("review_pending"@.len() == 14 && "changes_requested"@.len() == 17 && "approved"@.len()
        == 8 && "merged"@.len() == 6 && "closed"@.len() == 6 && "sync_error"@.len() == 10);
}

/// A workspace is its name, and the default one is called so.
pub proof fn workspaces_are_their_names(name: &str, made: WorkspaceId, copy: WorkspaceId)
    requires
        call_ensures(WorkspaceId::new, (name,), made),
        call_ensures(WorkspaceId::copied, (&made,), copy),
    ensures
        made.0@ == name@,
        copy.0@ == name@,
{
}

} // verus!
