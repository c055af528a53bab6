//! Sessions: creating, reading, cancelling, following them up and tailing
//! their events.

use vstd::prelude::*;

use crate::follow_up::{
    compose_input, composed, feedback, instructions_section, opening, optional_text,
    FollowUpContext,
};
use crate::github::{pull_of, GithubError, PullRef, PullSnapshot};
use crate::json::Json;
use crate::model::{
    pr_state_name, status_name, terminal_pr_state, terminal_status, Agent, Environment, PrState,
    Session, SessionStatus, WorkspaceId,
};
use crate::routes::{
    answer, answer_created, answer_if_present, answered_if_present, check_valid, guard, own_item,
    own_items, scoped, scoped_one, RouteStep, Scoped, StoreError, BAD_GATEWAY, CONFLICT, CREATED,
    INTERNAL_SERVER_ERROR, NOT_FOUND, SERVICE_UNAVAILABLE, UNPROCESSABLE_ENTITY,
};
use crate::text::same_text;

verus! {

/// A page of sessions.
#[derive(Debug)]
pub struct ListSessionsResponse {
    pub sessions: Vec<Session>,
    pub next_cursor: Option<String>,
}

/// A session to create.
#[derive(Debug)]
pub struct CreateSessionRequest {
    pub agent: Agent,
    pub environment: Environment,
    pub input: String,
}

/// A follow-up to create.
#[derive(Debug)]
pub struct FollowUpRequest {
    /// Extra guidance for the agent, appended after the review feedback.
    pub instructions: Option<String>,
    /// Agent configuration override; defaults to the parent session's.
    pub agent: Option<Agent>,
}

/// The sessions of the caller's workspace, in the store's order.
pub fn list_sessions(
    workspace: &WorkspaceId,
    stored: Result<Vec<Session>, StoreError>,
) -> (r: Result<ListSessionsResponse, u16>)
    ensures
        match stored {
            Ok(sessions) => r matches Ok(page) && page.sessions@ == scoped(
                sessions@,
                workspace@,
            ) && page.next_cursor is None,
            Err(_) => r matches Err(status) && status == INTERNAL_SERVER_ERROR,
        },
{
    match answer(stored) {
        Ok(sessions) => Ok(
            ListSessionsResponse { sessions: own_items(sessions, workspace), next_cursor: None },
        ),
        Err(status) => Err(status),
    }
}

/// One session of the caller's workspace.
pub fn get_session(
    workspace: &WorkspaceId,
    stored: Result<Option<Session>, StoreError>,
) -> (r: Result<Session, u16>)
    ensures
        r == answered_if_present(scoped_one(stored, workspace@), NOT_FOUND),
{
    answer_if_present(own_item(stored, workspace), NOT_FOUND)
}

/// A session that is to be created: it is stored when its environment is
/// valid, and refused with a 422 when it is not.
pub fn begin_create_session(new: NewSession, valid: bool) -> (r: RouteStep<NewSession>)
    ensures
        r == if valid {
            RouteStep::Act(new)
        } else {
            RouteStep::Refuse(UNPROCESSABLE_ENTITY)
        },
{
    guard(check_valid(valid), new)
}

/// Creates a session whose environment was found valid or not; `stored` is how
/// storing it went, and is not asked for when the environment is not valid.
pub fn create_session(valid: bool, stored: Option<Result<Session, StoreError>>) -> (r: Result<
    (u16, Session),
    u16,
>)
    requires
        valid ==> stored is Some,
    ensures
        r == if !valid {
            Err::<(u16, Session), u16>(UNPROCESSABLE_ENTITY)
        } else {
            match stored->0 {
                Ok(session) => Ok((CREATED, session)),
                Err(_) => Err(INTERNAL_SERVER_ERROR),
            }
        },
{
    match check_valid(valid) {
        Ok(_) => match stored {
            Some(stored) => answer_created(stored),
            None => Err(INTERNAL_SERVER_ERROR),
        },
        Err(status) => Err(status),
    }
}

// --- follow-ups -----------------------------------------------------------

/// The URL of the pull request that a session opened.
pub open spec fn opened_pull(session: Session) -> Option<Seq<char>> {
    match session.outcome {
        Some(o) => match o.pr_url {
            Some(url) => if o.kind@ == "pr_opened"@ {
                Some(url@)
            } else {
                None
            },
            None => None,
        },
        None => None,
    }
}

/// The session's pull request is known to be merged or closed.
pub open spec fn known_done(session: Session) -> bool {
    match session.pr_status {
        Some(status) => terminal_pr_state(status.state),
        None => false,
    }
}

/// The pull request that a follow-up addresses, or the status that the request
/// is refused with.
pub open spec fn follow_up_target(
    parent: Result<Option<Session>, StoreError>,
    root: Result<Option<Session>, StoreError>,
    github_configured: bool,
) -> Result<(Seq<char>, Seq<char>, nat), u16> {
    match (parent, root) {
        (Err(_), _) => Err(INTERNAL_SERVER_ERROR),
        (Ok(None), _) => Err(NOT_FOUND),
        (Ok(Some(_)), Err(_)) => Err(INTERNAL_SERVER_ERROR),
        (Ok(Some(_)), Ok(None)) => Err(NOT_FOUND),
        (Ok(Some(_)), Ok(Some(root))) => match opened_pull(root) {
            None => Err(UNPROCESSABLE_ENTITY),
            Some(url) => match pull_of(url) {
                None => Err(UNPROCESSABLE_ENTITY),
                Some(pull) => if known_done(root) {
                    Err(CONFLICT)
                } else if !github_configured {
                    Err(SERVICE_UNAVAILABLE)
                } else {
                    Ok(pull)
                },
            },
        },
    }
}

fn pull_opened_by(root: &Session) -> (r: Result<PullRef, u16>)
    ensures
        match r {
            Ok(pr) => opened_pull(*root) is Some && pull_of(opened_pull(*root)->0) == Some(
                (pr.owner@, pr.repo@, pr.number as nat),
            ),
            Err(status) => status == UNPROCESSABLE_ENTITY && (opened_pull(*root) is None
                || pull_of(opened_pull(*root)->0) is None),
        },
{
    match &root.outcome {
        Some(outcome) => if same_text(outcome.kind.as_str(), "pr_opened") {
            match &outcome.pr_url {
                Some(url) => match PullRef::parse(url.as_str()) {
                    Some(pr) => return Ok(pr),
                    None => {},
                },
                None => {},
            }
        },
        None => {},
    }
    Err(UNPROCESSABLE_ENTITY)
}

/// Begins a follow-up: the pull request to address. Tracking lives on the
/// session that opened the PR (`root`); follow-ups chain to it.
pub fn follow_up_pull(
    parent: &Result<Option<Session>, StoreError>,
    root: &Result<Option<Session>, StoreError>,
    github_configured: bool,
) -> (r: Result<PullRef, u16>)
    ensures
        match r {
            Ok(pr) => follow_up_target(*parent, *root, github_configured) == Ok::<
                (Seq<char>, Seq<char>, nat),
                u16,
            >((pr.owner@, pr.repo@, pr.number as nat)),
            Err(status) => follow_up_target(*parent, *root, github_configured) == Err::<
                (Seq<char>, Seq<char>, nat),
                u16,
            >(status),
        },
{
    match parent {
        Err(_) => return Err(INTERNAL_SERVER_ERROR),
        Ok(None) => return Err(NOT_FOUND),
        Ok(Some(_)) => {},
    }
    let root: &Session = match root {
        Err(_) => return Err(INTERNAL_SERVER_ERROR),
        Ok(None) => return Err(NOT_FOUND),
        Ok(Some(root)) => root,
    };
    let pr: PullRef = match pull_opened_by(root) {
        Ok(pr) => pr,
        Err(status) => return Err(status),
    };
    match &root.pr_status {
        Some(status) => if status.state.is_terminal() {
            return Err(CONFLICT);
        },
        None => {},
    }
    if !github_configured {
        return Err(SERVICE_UNAVAILABLE);
    }
    Ok(pr)
}

/// Goes on with a follow-up when its pull request was read: one that GitHub
/// says is merged or closed is refused, and so is one that cannot be read.
pub fn follow_up_snapshot(pull: Result<PullSnapshot, GithubError>) -> (r: Result<
    PullSnapshot,
    u16,
>)
    ensures
        r == match pull {
            Ok(p) => if p.merged || p.closed {
                Err::<PullSnapshot, u16>(CONFLICT)
            } else {
                Ok(p)
            },
            Err(_) => Err(BAD_GATEWAY),
        },
{
    match pull {
        Ok(p) => if p.merged || p.closed {
            Err(CONFLICT)
        } else {
            Ok(p)
        },
        Err(_) => Err(BAD_GATEWAY),
    }
}

/// What was read of the pull request's feedback; a 502 when it could not be.
pub fn follow_up_feedback<T>(read: Result<T, GithubError>) -> (r: Result<T, u16>)
    ensures
        r == match read {
            Ok(value) => Ok::<T, u16>(value),
            Err(_) => Err(BAD_GATEWAY),
        },
{
    match read {
        Ok(value) => Ok(value),
        Err(_) => Err(BAD_GATEWAY),
    }
}

/// A session to store.
#[derive(Debug)]
pub struct NewSession {
    pub agent: Agent,
    pub environment: Environment,
    pub input: String,
    pub parent_session_id: Option<String>,
}

/// The follow-up session: on the pull request's head branch, so that its
/// pushes update the same pull request, with the parent's agent unless the
/// request names another.
pub fn follow_up_session(
    request_agent: Option<Agent>,
    parent: Session,
    pr: &PullRef,
    pull: &PullSnapshot,
    input: String,
) -> (r: NewSession)
    ensures
        r.agent == match request_agent {
            Some(agent) => agent,
            None => parent.agent,
        },
        r.environment.kind@ == "github_repo"@,
        r.environment.repo matches Some(repo) && repo@ == pr.owner@ + "/"@ + pr.repo@,
        r.environment.base_branch matches Some(branch) && branch@ == pull.head_ref@,
        r.input == input,
        r.parent_session_id == Some(parent.id),
{
    let agent: Agent = match request_agent {
        Some(agent) => agent,
        None => parent.agent,
    };
    NewSession {
        agent,
        environment: Environment {
            kind: "github_repo".to_owned(),
            repo: Some(pr.full_repo()),
            base_branch: Some(pull.head_ref.clone()),
        },
        input,
        parent_session_id: Some(parent.id),
    }
}

/// Where a follow-up request stands.
#[derive(Debug)]
pub enum FollowUpStage {
    /// The session to follow up is being read.
    Parent { request: FollowUpRequest },
    /// The session that opened the pull request is being read.
    Root { request: FollowUpRequest, parent: Session },
    /// The pull request is being read.
    Pull { request: FollowUpRequest, parent: Session, pr: PullRef },
    /// Its feedback is being read.
    Feedback { request: FollowUpRequest, parent: Session, pr: PullRef, pull: PullSnapshot },
    /// The new session is being stored.
    Store,
    /// The request was answered.
    Ended,
}

/// A follow-up request.
#[derive(Debug)]
pub struct FollowUp {
    /// The caller's workspace.
    pub workspace: WorkspaceId,
    /// GitHub can be asked.
    pub github_configured: bool,
    pub stage: FollowUpStage,
}

/// What came of the work that a follow-up asked for.
#[derive(Debug)]
pub enum FollowUpEvent {
    Parent(Result<Option<Session>, StoreError>),
    Root(Result<Option<Session>, StoreError>),
    Pull(Result<PullSnapshot, GithubError>),
    Feedback(Result<FollowUpContext, GithubError>),
    Stored(Result<Session, StoreError>),
}

/// The work that a follow-up asks for.
#[derive(Debug)]
pub enum FollowUpAction {
    /// Read the session to follow up.
    ReadParent,
    /// Read the session that opened the pull request.
    ReadRoot,
    /// Read the pull request that the stage names.
    ReadPull,
    /// Read the feedback on it.
    ReadFeedback,
    /// Store this session.
    Store(NewSession),
    /// Answer the request.
    Answer(Result<(u16, Session), u16>),
}

/// The stage waits for this event.
pub open spec fn follow_up_expects(stage: FollowUpStage, event: FollowUpEvent) -> bool {
    match stage {
        FollowUpStage::Parent { .. } => event is Parent,
        FollowUpStage::Root { .. } => event is Root,
        FollowUpStage::Pull { .. } => event is Pull,
        FollowUpStage::Feedback { .. } => event is Feedback,
        FollowUpStage::Store => event is Stored,
        FollowUpStage::Ended => false,
    }
}

/// How many events a follow-up still waits for, at most.
pub open spec fn follow_up_rank(stage: FollowUpStage) -> int {
    match stage {
        FollowUpStage::Parent { .. } => 5,
        FollowUpStage::Root { .. } => 4,
        FollowUpStage::Pull { .. } => 3,
        FollowUpStage::Feedback { .. } => 2,
        FollowUpStage::Store => 1,
        FollowUpStage::Ended => 0,
    }
}

/// The session that a follow-up request creates: its input is composed from
/// the feedback on the pull request, with the request's instructions after it.
pub open spec fn is_follow_up(
    new: NewSession,
    request: FollowUpRequest,
    parent: Session,
    pr: PullRef,
    pull: PullSnapshot,
    context: FollowUpContext,
) -> bool {
    &&& new.agent == match request.agent {
        Some(agent) => agent,
        None => parent.agent,
    }
    &&& new.environment.kind@ == "github_repo"@
    &&& new.environment.repo matches Some(repo) && repo@ == pr.owner@ + "/"@ + pr.repo@
    &&& new.environment.base_branch matches Some(branch) && branch@ == pull.head_ref@
    &&& new.input@ == composed(context, optional_text(request.instructions))
    &&& new.parent_session_id == Some(parent.id)
}

/// What a step of a follow-up leads to.
pub open spec fn follow_up_leads_to(
    before: FollowUp,
    event: FollowUpEvent,
    stage: FollowUpStage,
    action: FollowUpAction,
) -> bool {
    match (before.stage, event) {
        (FollowUpStage::Parent { request }, FollowUpEvent::Parent(read)) => match answered_if_present(
            scoped_one(read, before.workspace@),
            NOT_FOUND,
        ) {
            Ok(parent) => stage == (FollowUpStage::Root { request, parent }) && action is ReadRoot,
            Err(status) => refused(stage, action, status),
        },
        (FollowUpStage::Root { request, parent }, FollowUpEvent::Root(root)) => {
            match follow_up_target(
                Ok(Some(parent)),
                scoped_one(root, before.workspace@),
                before.github_configured,
            ) {
                Ok(target) => {
                    &&& action is ReadPull
                    &&& stage matches FollowUpStage::Pull { request: r, parent: p, pr }
                    &&& r == request
                    &&& p == parent
                    &&& target == (pr.owner@, pr.repo@, pr.number as nat)
                },
                Err(status) => refused(stage, action, status),
            }
        },
        (FollowUpStage::Pull { request, parent, pr }, FollowUpEvent::Pull(read)) => match read {
            Ok(pull) => if pull.merged || pull.closed {
                refused(stage, action, CONFLICT)
            } else {
                stage == (FollowUpStage::Feedback { request, parent, pr, pull })
                    && action is ReadFeedback
            },
            Err(_) => refused(stage, action, BAD_GATEWAY),
        },
        (
            FollowUpStage::Feedback { request, parent, pr, pull },
            FollowUpEvent::Feedback(read),
        ) => match read {
            Ok(context) => stage is Store && (action matches FollowUpAction::Store(new)
                && is_follow_up(new, request, parent, pr, pull, context)),
            Err(_) => refused(stage, action, BAD_GATEWAY),
        },
        (FollowUpStage::Store, FollowUpEvent::Stored(stored)) => stage is Ended && action
            == FollowUpAction::Answer(
            match stored {
                Ok(session) => Ok((CREATED, session)),
                Err(_) => Err(INTERNAL_SERVER_ERROR),
            },
        ),
        _ => false,
    }
}

/// The request is over, answered with this status.
pub open spec fn refused(stage: FollowUpStage, action: FollowUpAction, status: u16) -> bool {
    stage is Ended && action == FollowUpAction::Answer(Err(status))
}

impl FollowUp {
    /// Begins a follow-up in the caller's workspace.
    pub fn begin(
        workspace: WorkspaceId,
        request: FollowUpRequest,
        github_configured: bool,
    ) -> (r: (FollowUp, FollowUpAction))
        ensures
            r.0 == (FollowUp {
                workspace,
                github_configured,
                stage: FollowUpStage::Parent { request },
            }),
            r.1 is ReadParent,
    {
        (
            FollowUp { workspace, github_configured, stage: FollowUpStage::Parent { request } },
            FollowUpAction::ReadParent,
        )
    }

    /// Ends a follow-up with a status.
    fn refuse(workspace: WorkspaceId, github_configured: bool, status: u16) -> (r: (
        FollowUp,
        FollowUpAction,
    ))
        ensures
            r.0.workspace == workspace,
            r.0.github_configured == github_configured,
            refused(r.0.stage, r.1, status),
    {
        (
            FollowUp { workspace, github_configured, stage: FollowUpStage::Ended },
            FollowUpAction::Answer(Err(status)),
        )
    }

    /// Goes on after an event: the session, the one that opened its pull
    /// request, the pull request and its feedback are read one after another,
    /// and the new session is stored when nothing of it refuses the request.
    pub fn step(self, event: FollowUpEvent) -> (r: (FollowUp, FollowUpAction))
        requires
            follow_up_expects(self.stage, event),
        ensures
            r.0.workspace == self.workspace,
            r.0.github_configured == self.github_configured,
            follow_up_leads_to(self, event, r.0.stage, r.1),
            0 <= follow_up_rank(r.0.stage) < follow_up_rank(self.stage),
    {
        let github_configured: bool = self.github_configured;
        let workspace: WorkspaceId = self.workspace;
        let (stage, action): (FollowUpStage, FollowUpAction) = match (self.stage, event) {
            (FollowUpStage::Parent { request }, FollowUpEvent::Parent(read)) => {
                match answer_if_present(own_item(read, &workspace), NOT_FOUND) {
                    Ok(parent) => (
                        FollowUpStage::Root { request, parent },
                        FollowUpAction::ReadRoot,
                    ),
                    Err(status) => return FollowUp::refuse(workspace, github_configured, status),
                }
            },
            (FollowUpStage::Root { request, parent }, FollowUpEvent::Root(root)) => {
                let read: Result<Option<Session>, StoreError> = Ok(Some(parent));
                let root: Result<Option<Session>, StoreError> = own_item(root, &workspace);
                let target: Result<PullRef, u16> = follow_up_pull(&read, &root, github_configured);
                match (target, read) {
                    (Ok(pr), Ok(Some(parent))) => (
                        FollowUpStage::Pull { request, parent, pr },
                        FollowUpAction::ReadPull,
                    ),
                    (Err(status), _) => return FollowUp::refuse(workspace, github_configured, status),
                    _ => return FollowUp::refuse(workspace, github_configured, INTERNAL_SERVER_ERROR),
                }
            },
            (FollowUpStage::Pull { request, parent, pr }, FollowUpEvent::Pull(read)) => {
                match follow_up_snapshot(read) {
                    Ok(pull) => (
                        FollowUpStage::Feedback { request, parent, pr, pull },
                        FollowUpAction::ReadFeedback,
                    ),
                    Err(status) => return FollowUp::refuse(workspace, github_configured, status),
                }
            },
            (
                FollowUpStage::Feedback { request, parent, pr, pull },
                FollowUpEvent::Feedback(read),
            ) => match follow_up_feedback(read) {
                Ok(context) => {
                    let input: String = match &request.instructions {
                        Some(text) => compose_input(&context, Some(text.as_str())),
                        None => compose_input(&context, None),
                    };
                    let new: NewSession = follow_up_session(
                        request.agent,
                        parent,
                        &pr,
                        &pull,
                        input,
                    );
                    (FollowUpStage::Store, FollowUpAction::Store(new))
                },
                Err(status) => return FollowUp::refuse(workspace, github_configured, status),
            },
            (FollowUpStage::Store, FollowUpEvent::Stored(stored)) => (
                FollowUpStage::Ended,
                FollowUpAction::Answer(answer_created(stored)),
            ),
            (stage, _) => (stage, FollowUpAction::Answer(Err(INTERNAL_SERVER_ERROR))),
        };
        (FollowUp { workspace, github_configured, stage }, action)
    }
}

/// Where a session is stored, its instructions stand behind all of the review
/// feedback.
pub proof fn instructions_follow_the_feedback(
    new: NewSession,
    request: FollowUpRequest,
    parent: Session,
    pr: PullRef,
    pull: PullSnapshot,
    context: FollowUpContext,
)
    requires
        is_follow_up(new, request, parent, pr, pull, context),
    ensures
        new.input@ == opening(context.pr) + feedback(context) + instructions_section(
            optional_text(request.instructions),
        ),
{
}

// --- events -----------------------------------------------------------

/// Which events are asked for.
#[derive(Debug, Clone, Copy, PartialEq, Eq, Structural)]
pub struct EventsQuery {
    pub after_seq: Option<i64>,
    pub limit: Option<i64>,
}

/// How many events are read from the store at once.
pub const STREAM_BATCH: i64 = 256;

/// How long a tail waits before it asks again, in milliseconds.
pub const STREAM_PAUSE_MS: u64 = 1000;

/// The number after which events are read, and how many of them: 1000 unless
/// asked otherwise, never fewer than one nor more than ten thousand.
pub fn get_events(query: &EventsQuery) -> (r: (i64, i64))
    ensures
        r.0 == match query.after_seq {
            Some(seq) => seq,
            None => 0,
        },
        1 <= r.1 <= 10_000,
        r.1 == match query.limit {
            Some(limit) => if limit < 1 {
                1
            } else if limit > 10_000 {
                10_000
            } else {
                limit
            },
            None => 1000,
        },
{
    let after_seq: i64 = match query.after_seq {
        Some(seq) => seq,
        None => 0,
    };
    let limit: i64 = match query.limit {
        Some(limit) => if limit < 1 {
            1
        } else if limit > 10_000 {
            10_000
        } else {
            limit
        },
        None => 1000,
    };
    (after_seq, limit)
}

/// Requests the cancellation of a session: `cancelled` is what the store did,
/// and `found` what it then knows about a session that it did not cancel.
pub fn cancel_session(
    cancelled: Result<Option<Session>, StoreError>,
    found: Result<bool, StoreError>,
) -> (r: Result<Session, u16>)
    ensures
        r == match cancelled {
            Err(_) => Err::<Session, u16>(INTERNAL_SERVER_ERROR),
            Ok(Some(session)) => Ok(session),
            Ok(None) => match found {
                Err(_) => Err(INTERNAL_SERVER_ERROR),
                Ok(true) => Err(CONFLICT),
                Ok(false) => Err(NOT_FOUND),
            },
        },
{
    match cancelled {
        Err(_) => Err(INTERNAL_SERVER_ERROR),
        Ok(Some(session)) => Ok(session),
        Ok(None) => match found {
            Err(_) => Err(INTERNAL_SERVER_ERROR),
            Ok(known) => if known {
                Err(CONFLICT)
            } else {
                Err(NOT_FOUND)
            },
        },
    }
}

/// The session's pull request is still being followed.
pub open spec fn tracks_pr(session: Session) -> bool {
    (session.outcome matches Some(o) && o.kind@ == "pr_opened"@) && !known_done(session)
}

/// A finished session that opened a PR keeps producing `pr_state_changed` /
/// `checks_state_changed` events until the PR merges or closes, so the tail
/// stays open ("watch this PR to merge") until the snapshot is terminal.
pub fn is_tracking_pr(session: &Session) -> (r: bool)
    ensures
        r == tracks_pr(*session),
{
    let opened: bool = match &session.outcome {
        Some(outcome) => same_text(outcome.kind.as_str(), "pr_opened"),
        None => false,
    };
    let done: bool = match &session.pr_status {
        Some(status) => status.state.is_terminal(),
        None => false,
    };
    opened && !done
}

/// The session will have no further events.
pub open spec fn tail_is_over(session: Session) -> bool {
    terminal_status(session.status) && !tracks_pr(session)
}

/// What a tail ends with: the pull request's final state, or the session's.
pub open spec fn done_text(session: Session) -> Seq<char> {
    match session.pr_status {
        Some(status) => if terminal_pr_state(status.state) {
            pr_state_name(status.state)
        } else {
            status_name(session.status)
        },
        None => status_name(session.status),
    }
}

/// A stored event of a session.
#[derive(Debug)]
pub struct SessionEvent {
    pub seq: i64,
    pub payload: Json,
}

/// Where a tail of events stands.
#[derive(Debug)]
pub struct EventCursor {
    /// Number of the last event handed out.
    pub after_seq: i64,
    /// Events read but not handed out, the last one first.
    pub buffer: Vec<SessionEvent>,
    /// The end was handed out.
    pub done: bool,
}

/// What a tail does next.
#[derive(Debug)]
pub enum TailStep {
    /// Hand out an event.
    Emit(SessionEvent),
    /// Read the next events, after this number.
    Fetch { after_seq: i64, limit: i64 },
    /// Close the stream.
    Close,
}

/// What a tail does after a read.
#[derive(Debug, Clone, Copy, PartialEq, Eq, Structural)]
pub enum ReadStep {
    /// Go on: there are events to hand out.
    Next,
    /// Ask for the session: there was no event.
    Idle,
    /// Wait, then read again: the store failed.
    Wait,
}

/// What a tail does about an empty read.
#[derive(Debug)]
pub enum IdleStep {
    /// Wait, then read again.
    Wait,
    /// Hand out the end, with this text.
    Done(String),
    /// Close the stream.
    Close,
}

/// The events that a cursor has read but not handed out, in their order.
pub open spec fn waiting(cursor: EventCursor) -> Seq<SessionEvent> {
    cursor.buffer@.reverse()
}

impl EventCursor {
    /// A tail that replays history after the number asked for.
    pub fn new(query: &EventsQuery) -> (r: EventCursor)
        ensures
            r.after_seq == match query.after_seq {
                Some(seq) => seq,
                None => 0,
            },
            waiting(r) == Seq::<SessionEvent>::empty(),
            !r.done,
    {
        let after_seq: i64 = match query.after_seq {
            Some(seq) => seq,
            None => 0,
        };
        let r = EventCursor { after_seq, buffer: Vec::new(), done: false };
        assert(waiting(r) =~= Seq::empty());
        r
    }

    /// Goes on: events that were read are handed out first, in their order.
    pub fn next(&mut self) -> (r: TailStep)
        ensures
            final(self).done == old(self).done,
            if waiting(*old(self)).len() > 0 {
                &&& r == TailStep::Emit(waiting(*old(self))[0])
                &&& waiting(*final(self)) == waiting(*old(self)).skip(1)
                &&& final(self).after_seq == waiting(*old(self))[0].seq
            } else {
                &&& *final(self) == *old(self)
                &&& r == if old(self).done {
                    TailStep::Close
                } else {
                    TailStep::Fetch { after_seq: old(self).after_seq, limit: STREAM_BATCH }
                }
            },
    {
        let ghost before = waiting(*self);
        if self.buffer.len() > 0 {
            let event: SessionEvent = self.buffer.pop().unwrap();
            self.after_seq = event.seq;
            assert(waiting(*self) =~= before.skip(1));
            TailStep::Emit(event)
        } else if self.done {
            TailStep::Close
        } else {
            TailStep::Fetch { after_seq: self.after_seq, limit: STREAM_BATCH }
        }
    }

    /// Takes the events of a read; false when there was none.
    pub fn fetched(&mut self, events: Vec<SessionEvent>) -> (r: bool)
        requires
            waiting(*old(self)).len() == 0,
        ensures
            waiting(*final(self)) == events@,
            final(self).after_seq == old(self).after_seq,
            final(self).done == old(self).done,
            r == (events@.len() > 0),
    {
        let any: bool = events.len() > 0;
        let ghost all = events@;
        let mut events = events;
        let mut reversed: Vec<SessionEvent> = Vec::new();
        while events.len() > 0
            invariant
                all == events@ + reversed@.reverse(),
            decreases events@.len(),
        {
            let ghost before = events@;
            let ghost before_reversed = reversed@;
            let last: SessionEvent = events.pop().unwrap();
            reversed.push(last);
            proof {
                assert(before =~= events@.push(last));
                assert(reversed@.reverse() =~= seq![last] + before_reversed.reverse());
                assert(events@.push(last) + before_reversed.reverse() =~= events@ + (seq![last]
                    + before_reversed.reverse()));
            }
        }
        assert(events@ + reversed@.reverse() =~= reversed@.reverse());
        self.buffer = reversed;
        any
    }

    /// Goes on after a read: the events of a read that went through are taken,
    /// and a read that failed is made again after a pause.
    pub fn read(&mut self, stored: Result<Vec<SessionEvent>, StoreError>) -> (r: ReadStep)
        requires
            waiting(*old(self)).len() == 0,
        ensures
            match stored {
                Ok(events) => {
                    &&& waiting(*final(self)) == events@
                    &&& final(self).after_seq == old(self).after_seq
                    &&& final(self).done == old(self).done
                    &&& r == if events@.len() > 0 {
                        ReadStep::Next
                    } else {
                        ReadStep::Idle
                    }
                },
                Err(_) => *final(self) == *old(self) && r is Wait,
            },
    {
        match stored {
            Ok(events) => if self.fetched(events) {
                ReadStep::Next
            } else {
                ReadStep::Idle
            },
            Err(_) => ReadStep::Wait,
        }
    }

    /// Goes on after an empty read, given what the store says about the
    /// session: the tail closes with the session's end once the session is
    /// over and its pull request, if it opened one, is merged or closed. A
    /// missing session or a failing store ends it without.
    pub fn idle(&mut self, session: &Result<Option<Session>, StoreError>) -> (r: IdleStep)
        ensures
            final(self).after_seq == old(self).after_seq,
            final(self).buffer == old(self).buffer,
            match *session {
                Ok(Some(s)) => if tail_is_over(s) {
                    &&& final(self).done
                    &&& r matches IdleStep::Done(text) && text@ == done_text(s)
                } else {
                    final(self).done == old(self).done && r is Wait
                },
                _ => final(self).done == old(self).done && r is Close,
            },
    {
        match session {
            Ok(Some(s)) => {
                if !s.status.is_terminal() || is_tracking_pr(s) {
                    return IdleStep::Wait;
                }
                self.done = true;
                let text: &'static str = match &s.pr_status {
                    Some(status) => if status.state.is_terminal() {
                        status.state.as_str()
                    } else {
                        s.status.as_str()
                    },
                    None => s.status.as_str(),
                };
                IdleStep::Done(text.to_owned())
            },
            _ => IdleStep::Close,
        }
    }
}

/// Number of the events that are not after `after`, of events in the order of
/// their numbers.
pub open spec fn position(numbers: Seq<i64>, after: i64) -> int
    decreases numbers.len(),
{
    if numbers.len() == 0 || numbers.last() <= after {
        numbers.len() as int
    } else {
        position(numbers.drop_last(), after)
    }
}

/// Each number is greater than the one before.
pub open spec fn increasing(numbers: Seq<i64>) -> bool {
    forall|i: int, j: int| 0 <= i < j < numbers.len() ==> #[trigger] numbers[i] < #[trigger] numbers[j]
}

/// The numbers of events.
pub open spec fn event_numbers(events: Seq<SessionEvent>) -> Seq<i64> {
    Seq::new(events.len(), |i: int| events[i].seq)
}

/// A tail of a session with these event numbers handed out `emitted`, the
/// events from `start` on, and goes on right behind them.
pub open spec fn in_place(
    numbers: Seq<i64>,
    start: int,
    emitted: Seq<i64>,
    cursor: EventCursor,
) -> bool {
    let ahead = emitted + event_numbers(waiting(cursor));
    &&& 0 <= start <= start + ahead.len() <= numbers.len()
    &&& ahead == numbers.subrange(start, start + ahead.len())
    &&& position(numbers, cursor.after_seq) == start + emitted.len()
}

/// A new tail starts with the first event after the number asked for.
pub proof fn tail_starts_in_place(numbers: Seq<i64>, cursor: EventCursor)
    requires
        increasing(numbers),
        waiting(cursor).len() == 0,
    ensures
        in_place(numbers, position(numbers, cursor.after_seq), Seq::empty(), cursor),
        forall|i: int|
            0 <= i < numbers.len() ==> (#[trigger] numbers[i] > cursor.after_seq <==> i >= position(
                numbers,
                cursor.after_seq,
            )),
{
    lemma_position(numbers, cursor.after_seq);
    let p = position(numbers, cursor.after_seq);
    assert(Seq::<i64>::empty() + event_numbers(waiting(cursor)) =~= numbers.subrange(p, p));
}

/// A tail misses no event and repeats none: what it hands out next follows
/// what it handed out before.
pub proof fn tail_keeps_its_place(
    numbers: Seq<i64>,
    start: int,
    emitted: Seq<i64>,
    before: EventCursor,
    after: EventCursor,
)
    requires
        increasing(numbers),
        in_place(numbers, start, emitted, before),
        waiting(before).len() > 0,
        waiting(after) == waiting(before).skip(1),
        after.after_seq == waiting(before)[0].seq,
    ensures
        in_place(numbers, start, emitted.push(waiting(before)[0].seq), after),
{
    let next = waiting(before)[0].seq;
    let ahead = emitted + event_numbers(waiting(before));
    let longer = emitted.push(next) + event_numbers(waiting(after));
    assert(longer =~= ahead) by {
        assert forall|i: int| 0 <= i < longer.len() implies longer[i] == ahead[i] by {
            if i > emitted.len() {
                assert(event_numbers(waiting(after))[i - emitted.len() - 1] == waiting(
                    before,
                )[i - emitted.len()].seq);
            }
        }
    }
    let p = start + emitted.len();
    assert(ahead[emitted.len() as int] == next);
    assert(numbers[p] == next);
    lemma_position(numbers, next);
    let q = position(numbers, next);
    if q < p + 1 {
        assert(numbers[p] > next);
    } else if q > p + 1 {
        assert(numbers[p] < numbers[p + 1]);
        assert(numbers[p + 1] <= next);
    }
}

/// A read goes on right behind what was handed out: the first events after
/// the cursor's number, of those stored by then.
pub proof fn reads_continue_the_tail(
    numbers: Seq<i64>,
    stored: int,
    limit: int,
    start: int,
    emitted: Seq<i64>,
    before: EventCursor,
    after: EventCursor,
)
    requires
        increasing(numbers),
        0 <= stored <= numbers.len(),
        0 <= limit,
        in_place(numbers, start, emitted, before),
        waiting(before).len() == 0,
        after.after_seq == before.after_seq,
        ({
            let newer = numbers.take(stored).filter(|seq: i64| seq > before.after_seq);
            event_numbers(waiting(after)) == if newer.len() < limit {
                newer
            } else {
                newer.take(limit)
            }
        }),
    ensures
        in_place(numbers, start, emitted, after),
{
    let known = numbers.take(stored);
    assert forall|i: int, j: int| 0 <= i < j < known.len() implies #[trigger] known[i]
        < #[trigger] known[j] by {
        assert(numbers[i] < numbers[j]);
    }
    lemma_position(known, before.after_seq);
    lemma_position(numbers, before.after_seq);
    let p = position(numbers, before.after_seq);
    let q = position(known, before.after_seq);
    assert(emitted + event_numbers(waiting(before)) =~= emitted);
    let read = event_numbers(waiting(after));
    assert(q == if p < stored {
        p
    } else {
        stored
    }) by {
        if q < p && q < stored {
            assert(known[q] > before.after_seq);
            assert(numbers[q] <= before.after_seq);
        }
        if p < q {
            assert(known[p] <= before.after_seq);
            assert(numbers[p] > before.after_seq);
        }
    }
    let ahead = emitted + read;
    assert forall|i: int| 0 <= i < ahead.len() implies ahead[i] == numbers[start + i] by {
        if i < emitted.len() {
            assert(emitted[i] == numbers.subrange(start, start + emitted.len())[i]);
        } else {
            assert(read[i - emitted.len()] == known.skip(q)[i - emitted.len()]);
        }
    }
    assert(ahead =~= numbers.subrange(start, start + ahead.len()));
}

proof fn lemma_position(numbers: Seq<i64>, after: i64)
    requires
        increasing(numbers),
    ensures
        0 <= position(numbers, after) <= numbers.len(),
        forall|i: int| 0 <= i < position(numbers, after) ==> #[trigger] numbers[i] <= after,
        forall|i: int| position(numbers, after) <= i < numbers.len() ==> #[trigger] numbers[i] > after,
        numbers.filter(|seq: i64| seq > after) =~= numbers.skip(position(numbers, after)),
    decreases numbers.len(),
{
    let wanted = |seq: i64| seq > after;
    reveal(Seq::filter);
    if numbers.len() > 0 {
        let front = numbers.drop_last();
        assert(increasing(front)) by {
            assert forall|i: int, j: int| 0 <= i < j < front.len() implies #[trigger] front[i]
                < #[trigger] front[j] by {
                assert(numbers[i] < numbers[j]);
            }
        }
        lemma_position(front, after);
        let last = numbers.last();
        if last <= after {
            assert forall|i: int| 0 <= i < numbers.len() implies #[trigger] numbers[i] <= after by {
                if i < numbers.len() - 1 {
                    assert(numbers[i] < numbers[numbers.len() - 1]);
                }
            }
            assert(position(front, after) == front.len()) by {
                if position(front, after) < front.len() {
                    assert(front[position(front, after)] > after);
                    assert(numbers[position(front, after)] <= after);
                }
            }
            assert(front.skip(front.len() as int) =~= Seq::empty());
        } else {
            assert forall|i: int| 0 <= i < position(numbers, after) implies #[trigger] numbers[i]
                <= after by {
                assert(front[i] <= after);
            }
            assert forall|i: int| position(numbers, after) <= i < numbers.len() implies
                #[trigger] numbers[i] > after by {
                if i < front.len() {
                    assert(front[i] > after);
                }
            }
            assert(numbers.skip(position(numbers, after)) =~= front.skip(
                position(front, after),
            ).push(last));
        }
    }
}

/// A tail does not come to its end while the session is unfinished, nor while
/// a pull request that it opened is neither merged nor closed.
pub proof fn tail_outlives_tracking(session: Session)
    ensures
        !terminal_status(session.status) ==> !tail_is_over(session),
        opened_pull(session) is Some && !known_done(session) ==> !tail_is_over(session),
{
}

/// A follow-up is refused without asking GitHub when the pull request is known
/// to be merged or closed.
pub proof fn done_pulls_are_refused(parent: Session, root: Session, github_configured: bool)
    requires
        opened_pull(root) is Some,
        pull_of(opened_pull(root)->0) is Some,
        known_done(root),
    ensures
        follow_up_target(Ok(Some(parent)), Ok(Some(root)), github_configured) == Err::<
            (Seq<char>, Seq<char>, nat),
            u16,
        >(CONFLICT),
{
}

// --- what callers see -----------------------------------------------------------

/// A workspace is shown its own sessions in the store's order, all on one
/// page, and a single session only when it is its own: any other is a 404.
pub proof fn sessions_are_shown_to_their_workspace(
    workspace: &WorkspaceId,
    stored: Result<Vec<Session>, StoreError>,
    listed: Result<ListSessionsResponse, u16>,
    one: Result<Option<Session>, StoreError>,
    got: Result<Session, u16>,
)
    requires
        call_ensures(list_sessions, (workspace, stored), listed),
        call_ensures(get_session, (workspace, one), got),
    ensures
        match stored {
            Ok(sessions) => listed matches Ok(page) && page.next_cursor is None
                && page.sessions@ == sessions@.filter(
                |session: Session| session.workspace_id@ == workspace@,
            ),
            Err(_) => listed matches Err(status) && status == 500,
        },
        match one {
            Ok(Some(session)) => got == if session.workspace_id@ == workspace@ {
                Ok::<Session, u16>(session)
            } else {
                Err(404)
            },
            Ok(None) => got == Err::<Session, u16>(404),
            Err(_) => got == Err::<Session, u16>(500),
        },
{
    let own = |session: Session| session.workspace_id@ == workspace@;
    assert(own =~= (|item: Session| item.scope() == workspace@));
}

/// A session is stored when its environment is valid, and answered with a 201;
/// one that is not is a 422.
pub proof fn valid_sessions_are_created(
    new: NewSession,
    valid: bool,
    step: RouteStep<NewSession>,
    stored: Option<Result<Session, StoreError>>,
    r: Result<(u16, Session), u16>,
)
    requires
        call_ensures(begin_create_session, (new, valid), step),
        valid ==> stored is Some,
        call_ensures(create_session, (valid, stored), r),
    ensures
        valid ==> step == RouteStep::Act(new),
        !valid ==> step == RouteStep::<NewSession>::Refuse(422) && r == Err::<(u16, Session), u16>(
            422,
        ),
        valid ==> match stored->0 {
            Ok(session) => r == Ok::<(u16, Session), u16>((201, session)),
            Err(_) => r == Err::<(u16, Session), u16>(500),
        },
{
}

/// A cancellation that the store made is answered with the session; a session
/// that it did not cancel is over, a 409, or unknown, a 404.
pub proof fn cancellations_are_answered(
    cancelled: Result<Option<Session>, StoreError>,
    found: Result<bool, StoreError>,
    r: Result<Session, u16>,
)
    requires
        call_ensures(cancel_session, (cancelled, found), r),
    ensures
        cancelled matches Ok(Some(session)) ==> r == Ok::<Session, u16>(session),
        cancelled is Err ==> r == Err::<Session, u16>(500),
        cancelled matches Ok(None) ==> match found {
            Ok(known) => r == (if known {
                Err::<Session, u16>(409)
            } else {
                Err(404)
            }),
            Err(_) => r == Err::<Session, u16>(500),
        },
{
}

/// What is asked of the events is what is read, within bounds: from the start
/// unless a number is given, a thousand unless a limit between one and ten
/// thousand is.
pub proof fn event_queries_are_kept_in_bounds(query: &EventsQuery, r: (i64, i64))
    requires
        call_ensures(get_events, (query,), r),
    ensures
        query.after_seq is None ==> r.0 == 0,
        query.after_seq matches Some(seq) ==> r.0 == seq,
        query.limit is None ==> r.1 == 1000,
        query.limit matches Some(limit) ==> {
            &&& 1 <= limit <= 10_000 ==> r.1 == limit
            &&& limit < 1 ==> r.1 == 1
            &&& limit > 10_000 ==> r.1 == 10_000
        },
{
}

/// A follow-up addresses the pull request that the first session opened. There
/// must be one, a 422 otherwise, that is neither merged nor closed, a 409
/// otherwise, and a way to ask GitHub, a 503 otherwise.
pub proof fn follow_ups_address_the_opened_pull_request(
    parent: &Result<Option<Session>, StoreError>,
    root: &Result<Option<Session>, StoreError>,
    configured: bool,
    r: Result<PullRef, u16>,
    url: &str,
    parsed: Option<PullRef>,
)
    requires
        call_ensures(follow_up_pull, (parent, root, configured), r),
        call_ensures(PullRef::parse, (url,), parsed),
    ensures
        *parent is Err ==> (r matches Err(status) && status == 500),
        *parent matches Ok(None) ==> (r matches Err(status) && status == 404),
        *parent matches Ok(Some(_)) ==> {
            &&& *root is Err ==> (r matches Err(status) && status == 500)
            &&& *root matches Ok(None) ==> (r matches Err(status) && status == 404)
            &&& *root matches Ok(Some(session)) ==> {
                let opened = session.outcome matches Some(o) && o.kind@ == "pr_opened"@
                    && o.pr_url is Some;
                let named = opened && (session.outcome matches Some(o) && o.pr_url->0@ == url@);
                let over = session.pr_status matches Some(s) && (s.state is Merged || s.state
                    is Closed);
                &&& !opened ==> (r matches Err(status) && status == 422)
                &&& named ==> match parsed {
                    None => r matches Err(status) && status == 422,
                    Some(pr) => if over {
                        r matches Err(status) && status == 409
                    } else if !configured {
                        r matches Err(status) && status == 503
                    } else {
                        r matches Ok(found) && found.owner@ == pr.owner@ && found.repo@ == pr.repo@
                            && found.number == pr.number
                    },
                }
            }
        },
{
}

/// A pull request that is merged or closed has no follow-up, a 409; what cannot
/// be read of GitHub is a 502; what is read is what is gone on with.
pub proof fn follow_ups_need_an_open_pull_request<T>(
    pull: Result<PullSnapshot, GithubError>,
    r: Result<PullSnapshot, u16>,
    read: Result<T, GithubError>,
    feedback: Result<T, u16>,
)
    requires
        call_ensures(follow_up_snapshot, (pull,), r),
        call_ensures(follow_up_feedback::<T>, (read,), feedback),
    ensures
        match pull {
            Ok(p) => r == (if p.merged || p.closed {
                Err::<PullSnapshot, u16>(409)
            } else {
                Ok(p)
            }),
            Err(_) => r == Err::<PullSnapshot, u16>(502),
        },
        match read {
            Ok(value) => feedback == Ok::<T, u16>(value),
            Err(_) => feedback == Err::<T, u16>(502),
        },
{
}

/// A follow-up works on the pull request's own branch, so that what it pushes
/// lands there: in the pull request's repository, from its head branch, with
/// the agent that was asked for or else the parent's, and the parent on record.
pub proof fn follow_ups_work_on_the_pull_requests_branch(
    agent: Option<Agent>,
    parent: Session,
    pr: &PullRef,
    pull: &PullSnapshot,
    input: String,
    r: NewSession,
)
    requires
        call_ensures(follow_up_session, (agent, parent, pr, pull, input), r),
    ensures
        agent matches Some(chosen) ==> r.agent == chosen,
        agent is None ==> r.agent == parent.agent,
        r.environment.kind@ == "github_repo"@,
        r.environment.repo matches Some(repo) && repo@ == pr.owner@ + "/"@ + pr.repo@,
        r.environment.base_branch matches Some(branch) && branch@ == pull.head_ref@,
        r.input@ == input@,
        r.parent_session_id matches Some(id) && id@ == parent.id@,
{
}

/// A follow-up reads the session, then the one that opened the pull request,
/// then the pull request, then its feedback, and goes on with what it read; its
/// workspace sees no session of another.
pub proof fn follow_ups_read_one_after_another(
    before: FollowUp,
    event: FollowUpEvent,
    r: (FollowUp, FollowUpAction),
)
    requires
        call_ensures(FollowUp::step, (before, event), r),
        follow_up_expects(before.stage, event),
    ensures
        r.0.workspace == before.workspace,
        r.0.github_configured == before.github_configured,
        before.stage matches FollowUpStage::Parent { request } ==> (event
            matches FollowUpEvent::Parent(read) ==> match read {
            Ok(Some(session)) => if session.workspace_id@ == before.workspace@ {
                r.1 is ReadRoot && r.0.stage == (FollowUpStage::Root { request, parent: session })
            } else {
                r.0.stage is Ended && r.1 == FollowUpAction::Answer(Err(404))
            },
            Ok(None) => r.0.stage is Ended && r.1 == FollowUpAction::Answer(Err(404)),
            Err(_) => r.0.stage is Ended && r.1 == FollowUpAction::Answer(Err(500)),
        }),
        before.stage matches FollowUpStage::Pull { request, parent, pr } ==> (event
            matches FollowUpEvent::Pull(read) ==> match read {
            Ok(pull) => if pull.merged || pull.closed {
                r.0.stage is Ended && r.1 == FollowUpAction::Answer(Err(409))
            } else {
                r.1 is ReadFeedback && r.0.stage == (FollowUpStage::Feedback {
                    request,
                    parent,
                    pr,
                    pull,
                })
            },
            Err(_) => r.0.stage is Ended && r.1 == FollowUpAction::Answer(Err(502)),
        }),
        event matches FollowUpEvent::Stored(stored) ==> r.0.stage is Ended && match stored {
            Ok(session) => r.1 == FollowUpAction::Answer(Ok((201, session))),
            Err(_) => r.1 == FollowUpAction::Answer(Err(500)),
        },
{
}

/// Between the sessions and the pull request a follow-up decides by the rule
/// for its target, on the sessions as the workspace sees them.
pub proof fn follow_ups_find_their_target(
    before: FollowUp,
    root: Result<Option<Session>, StoreError>,
    r: (FollowUp, FollowUpAction),
    own: Result<Option<Session>, StoreError>,
    parent_read: Result<Option<Session>, StoreError>,
    target: Result<PullRef, u16>,
)
    requires
        call_ensures(FollowUp::step, (before, FollowUpEvent::Root(root)), r),
        before.stage is Root,
        call_ensures(own_item::<Session>, (root, &before.workspace), own),
        before.stage matches FollowUpStage::Root { parent, .. } && parent_read == Ok::<
            Option<Session>,
            StoreError,
        >(Some(parent)),
        call_ensures(follow_up_pull, (&parent_read, &own, before.github_configured), target),
    ensures
        match target {
            Ok(found) => r.1 is ReadPull && (before.stage matches FollowUpStage::Root {
                request,
                parent,
            } && (r.0.stage matches FollowUpStage::Pull { request: q, parent: p, pr } && q
                == request && p == parent && pr.owner@ == found.owner@ && pr.repo@ == found.repo@
                && pr.number == found.number)),
            Err(status) => r.0.stage is Ended && r.1 == FollowUpAction::Answer(Err(status)),
        },
{
}

/// What a follow-up stores is the session for its pull request, told the whole
/// composed prompt.
pub proof fn follow_ups_store_the_composed_prompt(
    before: FollowUp,
    context: FollowUpContext,
    r: (FollowUp, FollowUpAction),
    instructions: Option<&str>,
    input: String,
)
    requires
        call_ensures(FollowUp::step, (before, FollowUpEvent::Feedback(Ok(context))), r),
        before.stage is Feedback,
        before.stage matches FollowUpStage::Feedback { request, .. } && match (
            request.instructions,
            instructions,
        ) {
            (Some(wanted), Some(given)) => wanted@ == given@,
            (None, None) => true,
            _ => false,
        },
        call_ensures(compose_input, (&context, instructions), input),
    ensures
        r.0.stage is Store,
        before.stage matches FollowUpStage::Feedback { request, parent, pr, pull } && (r.1
            matches FollowUpAction::Store(new) && new.input@ == input@ && new.parent_session_id
            == Some(parent.id) && (new.environment.base_branch matches Some(branch) && branch@
            == pull.head_ref@) && (new.environment.repo matches Some(repo) && repo@ == pr.owner@
            + "/"@ + pr.repo@) && new.environment.kind@ == "github_repo"@ && new.agent == (
        match request.agent {
            Some(agent) => agent,
            None => parent.agent,
        })),
{
}

/// A follow-up whose feedback cannot be read is a 502, and one begins by
/// reading the session to follow up.
pub proof fn follow_ups_begin_and_fail_as_told(
    workspace: WorkspaceId,
    request: FollowUpRequest,
    configured: bool,
    begun: (FollowUp, FollowUpAction),
    before: FollowUp,
    error: GithubError,
    r: (FollowUp, FollowUpAction),
)
    requires
        call_ensures(FollowUp::begin, (workspace, request, configured), begun),
        before.stage is Feedback,
        call_ensures(FollowUp::step, (before, FollowUpEvent::Feedback(Err(error))), r),
    ensures
        begun.1 is ReadParent,
        begun.0.stage == (FollowUpStage::Parent { request }),
        begun.0.workspace == workspace,
        begun.0.github_configured == configured,
        r.0.stage is Ended && r.1 == FollowUpAction::Answer(Err(502)),
{
}

/// Events that were read are handed out one by one in their order, each once,
/// and the tail goes on after the number of the last one.
pub proof fn read_events_are_handed_out_in_order(
    taken: &mut EventCursor,
    events: Vec<SessionEvent>,
    any: bool,
    first: &mut EventCursor,
    first_step: TailStep,
    second: &mut EventCursor,
    second_step: TailStep,
)
    requires
        waiting(*old(taken)).len() == 0,
        call_ensures(EventCursor::fetched, (taken, events), any),
        *old(first) == *final(taken),
        call_ensures(EventCursor::next, (first,), first_step),
        *old(second) == *final(first),
        call_ensures(EventCursor::next, (second,), second_step),
    ensures
        any <==> events@.len() > 0,
        final(taken).after_seq == old(taken).after_seq,
        events@.len() > 0 ==> first_step == TailStep::Emit(events@[0]) && final(first).after_seq
            == events@[0].seq,
        events@.len() > 1 ==> second_step == TailStep::Emit(events@[1]) && final(second).after_seq
            == events@[1].seq,
        events@.len() == 1 && !old(taken).done ==> second_step == (TailStep::Fetch {
            after_seq: events@[0].seq,
            limit: 256,
        }),
        events@.len() == 0 && !old(taken).done ==> first_step == (TailStep::Fetch {
            after_seq: old(taken).after_seq,
            limit: 256,
        }),
        events@.len() == 0 && old(taken).done ==> first_step is Close,
{
    if events@.len() > 0 {
        assert(waiting(*final(first)) == events@.skip(1));
    }
}

/// However many events wait, the tail hands out the first of them and keeps
/// the others in their order.
pub proof fn waiting_events_keep_their_order(
    cursor: &mut EventCursor,
    step: TailStep,
    events: Seq<SessionEvent>,
    i: int,
)
    requires
        0 <= i < events.len(),
        waiting(*old(cursor)) == events.skip(i),
        call_ensures(EventCursor::next, (cursor,), step),
    ensures
        step == TailStep::Emit(events[i]),
        waiting(*final(cursor)) == events.skip(i + 1),
        final(cursor).after_seq == events[i].seq,
        final(cursor).done == old(cursor).done,
{
    assert(events.skip(i).skip(1) =~= events.skip(i + 1));
    assert(events.skip(i)[0] == events[i]);
}

/// A tail starts after the number that was asked for, or from the start; what
/// a read gave is taken, an empty read asks for the session, and a failed one
/// changes nothing.
pub proof fn tails_read_on(
    query: &EventsQuery,
    fresh: EventCursor,
    cursor: &mut EventCursor,
    stored: Result<Vec<SessionEvent>, StoreError>,
    r: ReadStep,
)
    requires
        call_ensures(EventCursor::new, (query,), fresh),
        waiting(*old(cursor)).len() == 0,
        call_ensures(EventCursor::read, (cursor, stored), r),
    ensures
        query.after_seq is None ==> fresh.after_seq == 0,
        query.after_seq matches Some(seq) ==> fresh.after_seq == seq,
        fresh.buffer@.len() == 0 && !fresh.done,
        match stored {
            Ok(events) => waiting(*final(cursor)) == events@ && (r is Next <==> events@.len() > 0)
                && (r is Idle <==> events@.len() == 0) && final(cursor).after_seq
                == old(cursor).after_seq,
            Err(_) => r is Wait && *final(cursor) == *old(cursor),
        },
{
    assert(waiting(fresh).len() == fresh.buffer@.len());
}

/// A tail ends when its session is over and its pull request, if it opened
/// one, is merged or closed; its last word is the pull request's end, or else
/// the session's. Until then it waits, and a session that is gone closes it.
pub proof fn tails_end_with_the_last_word(
    cursor: &mut EventCursor,
    session: Session,
    r: IdleStep,
    status_text: &'static str,
    state: PrState,
    state_text: &'static str,
    tracking: bool,
)
    requires
        call_ensures(
            EventCursor::idle,
            (cursor, &Ok::<Option<Session>, StoreError>(Some(session))),
            r,
        ),
        call_ensures(SessionStatus::as_str, (&session.status,), status_text),
        session.pr_status matches Some(s) ==> s.state == state,
        call_ensures(PrState::as_str, (&state,), state_text),
        call_ensures(is_tracking_pr, (&session,), tracking),
    ensures
        ({
            let ended = session.status is Completed || session.status is Failed || session.status
                is Cancelled;
            let settled = session.pr_status is Some && (state is Merged || state is Closed);
            let opened = session.outcome matches Some(o) && o.kind@ == "pr_opened"@;
            &&& tracking <==> opened && !settled
            &&& ended && !tracking ==> final(cursor).done && (r matches IdleStep::Done(text)
                && text@ == (if settled {
                state_text@
            } else {
                status_text@
            }))
            &&& !ended || tracking ==> r is Wait && final(cursor).done == old(cursor).done
        }),
        final(cursor).after_seq == old(cursor).after_seq,
        final(cursor).buffer == old(cursor).buffer,
{
}

/// A tail closes when its session is gone or cannot be read.
pub proof fn tails_of_lost_sessions_close(
    cursor: &mut EventCursor,
    session: &Result<Option<Session>, StoreError>,
    r: IdleStep,
)
    requires
        call_ensures(EventCursor::idle, (cursor, session), r),
        !(*session matches Ok(Some(_))),
    ensures
        r is Close,
        final(cursor).done == old(cursor).done,
        final(cursor).after_seq == old(cursor).after_seq,
        final(cursor).buffer == old(cursor).buffer,
{
}

/// A tail asks again every second.
pub proof fn tails_ask_every_second()
    ensures
        STREAM_PAUSE_MS == 1000,
{
}

} // verus!
