//! Hosts: enrolling them, and the protocol by which they pull their work.

use vstd::prelude::*;

use crate::credentials::{IssueError, IssuedCredential};
use crate::events::NewSessionEvent;
use crate::json::{has_member, member, text_of_value, Json, JsonView};
use crate::model::{terminal_status, EventFidelity, Session, SessionStatus, WorkspaceId};
use crate::routes::{
    answer, answer_if_present, answered_if_present, guard, guarded, own_items, scoped, RouteStep,
    Scoped, StoreError, BAD_GATEWAY, CONFLICT, CREATED, INTERNAL_SERVER_ERROR, NOT_FOUND, NO_CONTENT,
    SERVICE_UNAVAILABLE, UNAUTHORIZED, UNPROCESSABLE_ENTITY,
};
use crate::session_run::FinishRequest;
use crate::text::same_text;
use crate::time::Timestamp;

verus! {

/// An enrolled host.
#[derive(Debug)]
pub struct Host {
    pub id: String,
    pub name: String,
    pub workspace_id: WorkspaceId,
    pub ephemeral: bool,
    pub created_at: Timestamp,
}

impl Scoped for Host {
    open spec fn scope(&self) -> Seq<char> {
        self.workspace_id@
    }

    fn workspace(&self) -> (r: &WorkspaceId) {
        &self.workspace_id
    }
}

/// Host identity resolved from the `Authorization: Bearer vhost_...` header.
#[derive(Debug)]
pub struct AuthedHost(pub Host);

impl AuthedHost {
    /// Resolves the host, given whether its request carried a bearer token and
    /// what the store says about that.
    pub fn from_request(has_token: bool, stored: Result<Option<Host>, StoreError>) -> (r: Result<
        AuthedHost,
        u16,
    >)
        ensures
            match r {
                Ok(h) => has_token && stored == Ok::<Option<Host>, StoreError>(Some(h.0)),
                Err(status) => status == if has_token && stored is Err {
                    INTERNAL_SERVER_ERROR
                } else {
                    UNAUTHORIZED
                } && !(has_token && (stored matches Ok(Some(_)))),
            },
    {
        if !has_token {
            return Err(UNAUTHORIZED);
        }
        match answer_if_present(stored, UNAUTHORIZED) {
            Ok(host) => Ok(AuthedHost(host)),
            Err(status) => Err(status),
        }
    }
}

/// A host to enroll.
#[derive(Debug)]
pub struct EnrollHostRequest {
    pub name: String,
}

/// An enrolled host and its token.
#[derive(Debug)]
pub struct EnrollHostResponse {
    pub host: Host,
    /// The bearer token for this host. Shown exactly once; store it safely.
    pub token: String,
}

/// Enrolls a host.
pub fn enroll_host(stored: Result<(Host, String), StoreError>) -> (r: Result<
    (u16, EnrollHostResponse),
    u16,
>)
    ensures
        match stored {
            Ok((host, token)) => r == Ok::<(u16, EnrollHostResponse), u16>(
                (CREATED, EnrollHostResponse { host, token }),
            ),
            Err(_) => r == Err::<(u16, EnrollHostResponse), u16>(INTERNAL_SERVER_ERROR),
        },
{
    match stored {
        Ok((host, token)) => Ok((CREATED, EnrollHostResponse { host, token })),
        Err(_) => Err(INTERNAL_SERVER_ERROR),
    }
}

/// The hosts of the caller's workspace, in the store's order.
pub fn list_hosts(
    workspace: &WorkspaceId,
    stored: Result<Vec<Host>, StoreError>,
) -> (r: Result<Vec<Host>, u16>)
    ensures
        match stored {
            Ok(hosts) => r matches Ok(listed) && listed@ == scoped(hosts@, workspace@),
            Err(_) => r matches Err(status) && status == INTERNAL_SERVER_ERROR,
        },
{
    match answer(stored) {
        Ok(hosts) => Ok(own_items(hosts, workspace)),
        Err(status) => Err(status),
    }
}

/// What a host claimed.
#[derive(Debug)]
pub struct ClaimResponse {
    /// The claimed session, or null if there is no pending work.
    pub session: Option<Session>,
    /// How much of the session's events may leave the host.
    pub event_fidelity: EventFidelity,
}

/// The policy that a workspace's settings ask for: full events unless they say
/// otherwise. It fails closed: a policy that is not recognized must not
/// silently resolve to full content.
pub open spec fn policy_of(settings: JsonView) -> EventFidelity {
    if !has_member(settings, "event_fidelity"@) {
        EventFidelity::Full
    } else if text_of_value(member(settings, "event_fidelity"@)) == Some("full"@) {
        EventFidelity::Full
    } else {
        EventFidelity::Redacted
    }
}

/// The policy that a workspace's settings ask for.
pub fn event_fidelity(settings: &Json) -> (r: EventFidelity)
    ensures
        r == policy_of(settings@),
{
    match settings.get("event_fidelity") {
        Some(value) => match value.as_str() {
            Some(name) => if same_text(name, "full") {
                EventFidelity::Full
            } else {
                EventFidelity::Redacted
            },
            None => EventFidelity::Redacted,
        },
        None => EventFidelity::Full,
    }
}

/// The policy's name.
pub fn fidelity_name(fidelity: EventFidelity) -> (r: &'static str)
    ensures
        r@ == match fidelity {
            EventFidelity::Full => "full"@,
            EventFidelity::Redacted => "redacted"@,
        },
{
    match fidelity {
        EventFidelity::Full => "full",
        EventFidelity::Redacted => "redacted",
    }
}

/// Claims a session, or nothing when there is no pending work; the answer
/// carries the policy of the host's workspace either way.
pub fn claim(
    stored: Result<Option<Session>, StoreError>,
    settings: &Result<Json, StoreError>,
) -> (r: Result<ClaimResponse, u16>)
    ensures
        match (stored, *settings) {
            (Ok(session), Ok(settings)) => r == Ok::<ClaimResponse, u16>(
                ClaimResponse { session, event_fidelity: policy_of(settings@) },
            ),
            _ => r == Err::<ClaimResponse, u16>(INTERNAL_SERVER_ERROR),
        },
{
    match (stored, settings) {
        (Ok(session), Ok(settings)) => Ok(
            ClaimResponse { session, event_fidelity: event_fidelity(settings) },
        ),
        _ => Err(INTERNAL_SERVER_ERROR),
    }
}

/// The answer to a heartbeat.
#[derive(Debug, Clone, Copy, PartialEq, Eq, Structural)]
pub struct HeartbeatResponse {
    pub cancel_requested: bool,
}

/// Extends a lease; a 409 when the host no longer holds the session.
pub fn heartbeat(stored: Result<Option<bool>, StoreError>) -> (r: Result<HeartbeatResponse, u16>)
    ensures
        r == match stored {
            Ok(Some(cancel_requested)) => Ok::<HeartbeatResponse, u16>(
                HeartbeatResponse { cancel_requested },
            ),
            Ok(None) => Err(CONFLICT),
            Err(_) => Err(INTERNAL_SERVER_ERROR),
        },
{
    match answer_if_present(stored, CONFLICT) {
        Ok(cancel_requested) => Ok(HeartbeatResponse { cancel_requested }),
        Err(status) => Err(status),
    }
}

/// Events that a host reports.
#[derive(Debug)]
pub struct ReportEventsRequest {
    pub events: Vec<NewSessionEvent>,
}

/// Records events; a 409 when the host no longer holds the session.
pub fn report_events(stored: Result<Option<()>, StoreError>) -> (r: Result<u16, u16>)
    ensures
        r == match stored {
            Ok(Some(_)) => Ok::<u16, u16>(NO_CONTENT),
            Ok(None) => Err(CONFLICT),
            Err(_) => Err(INTERNAL_SERVER_ERROR),
        },
{
    match answer_if_present(stored, CONFLICT) {
        Ok(_) => Ok(NO_CONTENT),
        Err(status) => Err(status),
    }
}

/// The check that a report passes before it is stored.
pub open spec fn finish_checked(status: SessionStatus) -> Result<(), u16> {
    if terminal_status(status) {
        Ok(())
    } else {
        Err(UNPROCESSABLE_ENTITY)
    }
}

/// A report may be stored: its status is one that a session ends with.
pub fn check_finish(request: &FinishRequest) -> (r: Result<(), u16>)
    ensures
        r == finish_checked(request.status),
{
    if request.status.is_terminal() {
        Ok(())
    } else {
        Err(UNPROCESSABLE_ENTITY)
    }
}

/// A report that came: it is stored only when it passes its check.
pub fn begin_finish(request: FinishRequest) -> (r: RouteStep<FinishRequest>)
    ensures
        r == guarded(finish_checked(request.status), request),
{
    guard(check_finish(&request), request)
}

/// Finishes a session, once the report was checked; a 409 when the host no
/// longer holds it.
pub fn finish(
    checked: Result<(), u16>,
    stored: Result<Option<Session>, StoreError>,
) -> (r: Result<Session, u16>)
    ensures
        r == match checked {
            Ok(_) => answered_if_present(stored, CONFLICT),
            Err(status) => Err(status),
        },
{
    match checked {
        Ok(_) => answer_if_present(stored, CONFLICT),
        Err(status) => Err(status),
    }
}

/// A credential that a host asks for.
#[derive(Debug)]
pub struct IssueCredentialRequest {
    /// Provider name, e.g. "github"
    pub provider: String,
}

/// A credential for a host.
#[derive(Debug)]
pub struct IssueCredentialResponse {
    pub provider: String,
    pub secret: String,
    /// None for non-expiring credentials
    pub expires_at: Option<Timestamp>,
}

/// The host runs the session.
pub open spec fn holds_lease(session: Session, host_id: Seq<char>) -> bool {
    (session.host_id matches Some(id) && id@ == host_id) && session.status
        == SessionStatus::Running
}

/// The session that a credential may be issued for, or the status that the
/// request is refused with.
pub open spec fn lease_checked(
    provider_configured: bool,
    stored: Result<Option<Session>, StoreError>,
    host_id: Seq<char>,
) -> Result<Session, u16> {
    if !provider_configured {
        Err(SERVICE_UNAVAILABLE)
    } else {
        match stored {
            Ok(Some(session)) => if holds_lease(session, host_id) {
                Ok(session)
            } else {
                Err(CONFLICT)
            },
            Ok(None) => Err(NOT_FOUND),
            Err(_) => Err(INTERNAL_SERVER_ERROR),
        }
    }
}

/// The session that a credential may be issued for: only the host holding the
/// running lease may obtain credentials.
pub fn check_lease(
    provider_configured: bool,
    stored: Result<Option<Session>, StoreError>,
    host_id: &str,
) -> (r: Result<Session, u16>)
    ensures
        r == lease_checked(provider_configured, stored, host_id@),
{
    if !provider_configured {
        return Err(SERVICE_UNAVAILABLE);
    }
    match answer_if_present(stored, NOT_FOUND) {
        Ok(session) => {
            let holder: bool = match &session.host_id {
                Some(id) => same_text(id.as_str(), host_id),
                None => false,
            };
            if holder && session.status == SessionStatus::Running {
                Ok(session)
            } else {
                Err(CONFLICT)
            }
        },
        Err(status) => Err(status),
    }
}

/// A credential that a host asks for: it is issued only for a session that
/// the host runs.
pub fn begin_issue(
    provider_configured: bool,
    stored: Result<Option<Session>, StoreError>,
    host_id: &str,
) -> (r: RouteStep<Session>)
    ensures
        r == issue_step(provider_configured, stored, host_id@),
{
    match check_lease(provider_configured, stored, host_id) {
        Ok(session) => RouteStep::Act(session),
        Err(status) => RouteStep::Refuse(status),
    }
}

/// What is done about a credential that a host asks for.
pub open spec fn issue_step(
    provider_configured: bool,
    stored: Result<Option<Session>, StoreError>,
    host_id: Seq<char>,
) -> RouteStep<Session> {
    match lease_checked(provider_configured, stored, host_id) {
        Ok(session) => RouteStep::Act(session),
        Err(status) => RouteStep::Refuse(status),
    }
}

/// Only the host holding the running lease obtains a credential, and it does
/// so for that session: whatever else the store says, nothing is issued.
pub proof fn credentials_need_the_lease(
    provider_configured: bool,
    stored: Result<Option<Session>, StoreError>,
    host_id: Seq<char>,
)
    ensures
        match issue_step(provider_configured, stored, host_id) {
            RouteStep::Act(session) => provider_configured && holds_lease(session, host_id)
                && stored == Ok::<Option<Session>, StoreError>(Some(session)),
            RouteStep::Refuse(_) => !provider_configured || !(stored matches Ok(Some(session))
                && holds_lease(session, host_id)),
        },
{
}

/// Issues a credential, given what its provider did.
pub fn issue_credential(
    provider: String,
    issued: Result<IssuedCredential, IssueError>,
) -> (r: Result<IssueCredentialResponse, u16>)
    ensures
        r == match issued {
            Ok(c) => Ok::<IssueCredentialResponse, u16>(
                IssueCredentialResponse { provider, secret: c.secret, expires_at: c.expires_at },
            ),
            Err(IssueError::NotApplicable(_)) => Err(UNPROCESSABLE_ENTITY),
            Err(IssueError::Upstream(_)) => Err(BAD_GATEWAY),
        },
{
    match issued {
        Ok(c) => Ok(
            IssueCredentialResponse { provider, secret: c.secret, expires_at: c.expires_at },
        ),
        Err(IssueError::NotApplicable(_)) => Err(UNPROCESSABLE_ENTITY),
        Err(IssueError::Upstream(_)) => Err(BAD_GATEWAY),
    }
}

/// Only the policy `full` lets content through: whatever else a workspace's
/// settings say about it, the events of its sessions are redacted.
pub proof fn policy_fails_closed(settings: JsonView)
    requires
        has_member(settings, "event_fidelity"@),
        text_of_value(member(settings, "event_fidelity"@)) != Some("full"@),
    ensures
        policy_of(settings) == EventFidelity::Redacted,
{
}

// --- what callers see -----------------------------------------------------------

/// A request is a host's when it carries a token that the store knows, and
/// then that host's; any other is a 401, or a 500 when the store fails.
pub proof fn hosts_are_known_by_their_token(
    has_token: bool,
    stored: Result<Option<Host>, StoreError>,
    r: Result<AuthedHost, u16>,
)
    requires
        call_ensures(AuthedHost::from_request, (has_token, stored), r),
    ensures
        !has_token ==> (r matches Err(status) && status == 401),
        has_token ==> match stored {
            Ok(Some(host)) => r matches Ok(authed) && authed.0 == host,
            Ok(None) => r matches Err(status) && status == 401,
            Err(_) => r matches Err(status) && status == 500,
        },
{
}

/// An enrolled host is answered with its token, and a workspace with its own
/// hosts in the store's order.
pub proof fn hosts_are_answered(
    enrolled: Result<(Host, String), StoreError>,
    enroll: Result<(u16, EnrollHostResponse), u16>,
    workspace: &WorkspaceId,
    stored: Result<Vec<Host>, StoreError>,
    listed: Result<Vec<Host>, u16>,
)
    requires
        call_ensures(enroll_host, (enrolled,), enroll),
        call_ensures(list_hosts, (workspace, stored), listed),
    ensures
        match enrolled {
            Ok((host, token)) => enroll matches Ok((status, body)) && status == 201 && body.host
                == host && body.token == token,
            Err(_) => enroll matches Err(status) && status == 500,
        },
        match stored {
            Ok(hosts) => listed matches Ok(own) && own@ == hosts@.filter(
                |host: Host| host.workspace_id@ == workspace@,
            ),
            Err(_) => listed matches Err(status) && status == 500,
        },
{
    let own = |host: Host| host.workspace_id@ == workspace@;
    assert(own =~= (|item: Host| item.scope() == workspace@));
}

/// Events leave a host in full when the settings of its workspace say nothing
/// about them or say `full`, and in no other case. What is claimed comes with
/// that policy.
pub proof fn claims_carry_the_policy(
    settings: Json,
    fidelity: EventFidelity,
    stored: Result<Option<Session>, StoreError>,
    r: Result<ClaimResponse, u16>,
    name: &'static str,
)
    requires
        call_ensures(event_fidelity, (&settings,), fidelity),
        call_ensures(claim, (stored, &Ok::<Json, StoreError>(settings)), r),
        call_ensures(fidelity_name, (fidelity,), name),
    ensures
        fidelity is Full <==> (!has_member(settings@, "event_fidelity"@) || member(
            settings@,
            "event_fidelity"@,
        ) == JsonView::Text("full"@)),
        name@ == (if fidelity is Full {
            "full"@
        } else {
            "redacted"@
        }),
        match stored {
            Ok(session) => r matches Ok(claimed) && claimed.session == session
                && claimed.event_fidelity == fidelity,
            Err(_) => r matches Err(status) && status == 500,
        },
{
}

/// A host that no longer holds a session learns so by a 409, whatever it
/// reports about it; otherwise its reports go through.
pub proof fn lost_leases_are_conflicts(
    beat: Result<Option<bool>, StoreError>,
    heart: Result<HeartbeatResponse, u16>,
    recorded: Result<Option<()>, StoreError>,
    report: Result<u16, u16>,
    stored: Result<Option<Session>, StoreError>,
    finished: Result<Session, u16>,
)
    requires
        call_ensures(heartbeat, (beat,), heart),
        call_ensures(report_events, (recorded,), report),
        call_ensures(finish, (Ok::<(), u16>(()), stored), finished),
    ensures
        match beat {
            Ok(Some(cancel)) => heart matches Ok(reply) && reply.cancel_requested == cancel,
            Ok(None) => heart matches Err(status) && status == 409,
            Err(_) => heart matches Err(status) && status == 500,
        },
        match recorded {
            Ok(Some(_)) => report == Ok::<u16, u16>(204),
            Ok(None) => report == Err::<u16, u16>(409),
            Err(_) => report == Err::<u16, u16>(500),
        },
        match stored {
            Ok(Some(session)) => finished == Ok::<Session, u16>(session),
            Ok(None) => finished == Err::<Session, u16>(409),
            Err(_) => finished == Err::<Session, u16>(500),
        },
{
}

/// A session is finished only with a status that it can end with: completed,
/// failed or cancelled. Any other is a 422, and nothing is stored.
pub proof fn sessions_finish_with_an_end(
    request: FinishRequest,
    step: RouteStep<FinishRequest>,
    checked: Result<(), u16>,
    stored: Result<Option<Session>, StoreError>,
    r: Result<Session, u16>,
)
    requires
        call_ensures(begin_finish, (request,), step),
        call_ensures(check_finish, (&request,), checked),
        call_ensures(finish, (checked, stored), r),
    ensures
        request.status is Completed || request.status is Failed || request.status is Cancelled
            ==> step == RouteStep::Act(request) && checked is Ok,
        request.status is Pending || request.status is Running ==> step == RouteStep::<
            FinishRequest,
        >::Refuse(422) && r == Err::<Session, u16>(422),
{
}

/// A credential is for the host that runs the session, while it runs: any
/// other host is a 409, as is a session that is not running.
pub proof fn credentials_go_to_the_running_host(
    configured: bool,
    stored: Result<Option<Session>, StoreError>,
    host_id: &str,
    step: RouteStep<Session>,
)
    requires
        call_ensures(begin_issue, (configured, stored, host_id), step),
    ensures
        !configured ==> step == RouteStep::<Session>::Refuse(503),
        configured ==> match stored {
            Ok(Some(session)) => step == (if session.status is Running && (session.host_id
                matches Some(id) && id@ == host_id@) {
                RouteStep::Act(session)
            } else {
                RouteStep::Refuse(409)
            }),
            Ok(None) => step == RouteStep::<Session>::Refuse(404),
            Err(_) => step == RouteStep::<Session>::Refuse(500),
        },
{
}

/// A host is handed the credential as it was issued, under the provider it
/// asked for.
pub proof fn credentials_are_handed_over(
    provider: String,
    issued: Result<IssuedCredential, IssueError>,
    r: Result<IssueCredentialResponse, u16>,
)
    requires
        call_ensures(issue_credential, (provider, issued), r),
    ensures
        match issued {
            Ok(c) => r matches Ok(body) && body.provider == provider && body.secret == c.secret
                && body.expires_at == c.expires_at,
            Err(IssueError::NotApplicable(_)) => r == Err::<IssueCredentialResponse, u16>(422),
            Err(IssueError::Upstream(_)) => r == Err::<IssueCredentialResponse, u16>(502),
        },
{
}

} // verus!
