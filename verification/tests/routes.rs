use vise::auth::Caller;
use vise::credentials::{IssueError, IssuedCredential};
use vise::follow_up::{
    assemble_context, compose_input, CheckRun, FollowUpContext, GitHubUser, GitRef, PullRequest,
    Review, ReviewComment,
};
use vise::github::{status_error, GithubError, PullRef, PullSnapshot, RateHeaders};
use vise::json::parse_json;
use vise::model::{
    Agent, Environment, EventFidelity, PrState, PrStatus, Session, SessionOutcome, SessionStatus,
    WorkspaceId,
};
use vise::routes::enrollment::{
    begin_mint, check_mint, exchange_enrollment_token, list_enrollment_tokens, mint_enrollment_token,
    revoke_enrollment_token, EnrollmentToken, MintEnrollmentTokenRequest,
};
use vise::routes::hosts::{
    begin_finish, begin_issue, check_finish, check_lease, claim, enroll_host, event_fidelity, fidelity_name, finish, heartbeat,
    issue_credential, list_hosts, report_events, AuthedHost, Host,
};
use vise::routes::routines::{
    begin_create_routine, begin_update_routine, check_routine, check_update, create_routine, delete_routine, get_routine, list_routine_runs,
    list_routines, run_routine, update_routine, CreateRoutineRequest, Routine, SessionSpec,
    UpdateRoutineRequest,
};
use vise::routes::sessions::{
    begin_create_session, cancel_session, create_session, follow_up_feedback, follow_up_pull, follow_up_session,
    follow_up_snapshot, get_events, get_session, is_tracking_pr, list_sessions, EventCursor,
    EventsQuery, FollowUp, FollowUpAction, FollowUpEvent, FollowUpRequest, FollowUpStage, IdleStep,
    NewSession, ReadStep, SessionEvent, TailStep,
};
use vise::routes::{RouteStep, StoreError};
use vise::server::{
    env_number, env_value, poll_interval_secs, RoutineReport, RoutineScheduler,
};
use vise::session_run::FinishRequest;
use vise::time::Timestamp;

fn at(secs: i64) -> Timestamp {
    Timestamp { secs, nanos: 0 }
}

fn agent(harness: &str) -> Agent {
    Agent {
        harness: harness.into(),
        model: "model".into(),
        instructions: "be brief".into(),
        mcp_servers: vec![],
    }
}

fn environment() -> Environment {
    Environment {
        kind: "github_repo".into(),
        repo: Some("acme/widgets".into()),
        base_branch: None,
    }
}

fn session(id: &str) -> Session {
    Session {
        id: id.into(),
        workspace_id: WorkspaceId::default(),
        agent: agent("robot"),
        environment: environment(),
        input: "do the thing".into(),
        status: SessionStatus::Running,
        host_id: Some("host_1".into()),
        lease_expires_at: None,
        started_at: None,
        finished_at: None,
        stop_reason: None,
        error: None,
        outcome: None,
        pr_status: None,
        parent_session_id: None,
        cancel_requested: false,
        created_at: at(0),
        updated_at: at(0),
    }
}

/// A finished session that opened a pull request.
fn pr_session(number: u64) -> Session {
    let mut session = session("ses_root");
    session.status = SessionStatus::Completed;
    session.outcome = Some(SessionOutcome {
        kind: "pr_opened".into(),
        pr_url: Some(format!("https://github.com/acme/widgets/pull/{number}")),
        branch: Some("vise/feature".into()),
    });
    session
}

fn with_state(mut session: Session, state: PrState) -> Session {
    session.pr_status = Some(PrStatus {
        state,
        checks: None,
        last_synced_at: at(0),
    });
    session
}

fn here() -> WorkspaceId {
    WorkspaceId::default()
}

fn elsewhere() -> WorkspaceId {
    WorkspaceId::new("ws-alice")
}

fn host() -> Host {
    Host {
        id: "host_1".into(),
        name: "laptop".into(),
        workspace_id: WorkspaceId::default(),
        ephemeral: true,
        created_at: at(0),
    }
}

fn pull(closed: bool, merged: bool) -> PullSnapshot {
    PullSnapshot {
        html_url: "https://github.com/acme/widgets/pull/17".into(),
        closed,
        merged,
        head_ref: "vise/feature".into(),
        head_sha: "sha1".into(),
    }
}

// --- hosts -------------------------------------------------------------------

#[test]
fn claim_defaults_to_full_fidelity() {
    let settings = Ok(parse_json("{}").unwrap());
    let response = claim(Ok(Some(session("ses_1"))), &settings).unwrap();
    assert_eq!(response.session.unwrap().id, "ses_1");
    assert_eq!(response.event_fidelity, EventFidelity::Full);
    assert_eq!(fidelity_name(EventFidelity::Full), "full");
}

#[test]
fn claim_carries_the_workspaces_redacted_policy() {
    let settings = Ok(parse_json(r#"{ "event_fidelity": "redacted" }"#).unwrap());
    let response = claim(Ok(Some(session("ses_1"))), &settings).unwrap();
    assert_eq!(response.session.unwrap().id, "ses_1");
    assert_eq!(fidelity_name(response.event_fidelity), "redacted");
}

#[test]
fn claim_fails_closed_on_an_unrecognized_policy() {
    // A typo'd policy must not silently resolve to full content.
    for policy in [r#""partial""#, r#""Full""#, "null", "1", r#"["full"]"#] {
        let settings = parse_json(&format!(r#"{{ "event_fidelity": {policy} }}"#)).unwrap();
        assert_eq!(event_fidelity(&settings), EventFidelity::Redacted, "{policy}");
    }
    let full = parse_json(r#"{ "event_fidelity": "full" }"#).unwrap();
    assert_eq!(event_fidelity(&full), EventFidelity::Full);
}

#[test]
fn empty_claim_still_reports_the_policy() {
    let settings = Ok(parse_json(r#"{ "event_fidelity": "redacted" }"#).unwrap());
    let response = claim(Ok(None), &settings).unwrap();
    assert!(response.session.is_none());
    assert_eq!(response.event_fidelity, EventFidelity::Redacted);
    assert_eq!(claim(Err(StoreError), &settings).unwrap_err(), 500);
    assert_eq!(claim(Ok(None), &Err(StoreError)).unwrap_err(), 500);
}

#[test]
fn a_host_that_lost_its_lease_is_told() {
    assert!(heartbeat(Ok(Some(true))).unwrap().cancel_requested);
    assert_eq!(heartbeat(Ok(None)).unwrap_err(), 409);
    assert_eq!(heartbeat(Err(StoreError)).unwrap_err(), 500);
    assert_eq!(report_events(Ok(Some(()))), Ok(204));
    assert_eq!(report_events(Ok(None)), Err(409));
    assert_eq!(report_events(Err(StoreError)), Err(500));
}

#[test]
fn only_ends_are_reported() {
    let report = |status: SessionStatus| FinishRequest {
        status,
        stop_reason: None,
        error: None,
        outcome: None,
    };
    for status in [
        SessionStatus::Completed,
        SessionStatus::Failed,
        SessionStatus::Cancelled,
    ] {
        let checked = check_finish(&report(status));
        assert!(finish(checked, Ok(Some(session("ses_1")))).is_ok());
        assert_eq!(finish(checked, Ok(None)).unwrap_err(), 409);
        assert_eq!(finish(checked, Err(StoreError)).unwrap_err(), 500);
    }
    for status in [SessionStatus::Pending, SessionStatus::Running] {
        let checked = check_finish(&report(status));
        assert_eq!(finish(checked, Ok(Some(session("ses_1")))).unwrap_err(), 422);
    }
}

#[test]
fn credentials_need_the_running_lease() {
    let held = || Ok(Some(session("ses_1")));
    assert!(matches!(begin_issue(true, held(), "host_1"), RouteStep::Act(session)
        if session.id == "ses_1"));
    assert!(matches!(begin_issue(true, held(), "host_2"), RouteStep::Refuse(409)));
    assert_eq!(check_lease(true, held(), "host_1").unwrap().id, "ses_1");
    assert_eq!(check_lease(true, held(), "host_2").unwrap_err(), 409);
    assert_eq!(check_lease(false, held(), "host_1").unwrap_err(), 503);
    assert_eq!(check_lease(true, Ok(None), "host_1").unwrap_err(), 404);
    assert_eq!(check_lease(true, Err(StoreError), "host_1").unwrap_err(), 500);
    let mut done = session("ses_1");
    done.status = SessionStatus::Completed;
    assert_eq!(check_lease(true, Ok(Some(done)), "host_1").unwrap_err(), 409);

    let issued = IssuedCredential {
        secret: "tok".into(),
        expires_at: Some(at(9)),
    };
    let response = issue_credential("github".into(), Ok(issued)).unwrap();
    assert_eq!((response.provider.as_str(), response.secret.as_str()), ("github", "tok"));
    assert_eq!(response.expires_at, Some(at(9)));
    let refused = |error| issue_credential("github".into(), Err(error)).unwrap_err();
    assert_eq!(refused(IssueError::NotApplicable("x".into())), 422);
    assert_eq!(refused(IssueError::Upstream("x".into())), 502);
}

#[test]
fn hosts_are_enrolled() {
    let (status, enrolled) = enroll_host(Ok((host(), "vhost_1".into()))).unwrap();
    assert_eq!((status, enrolled.token.as_str()), (201, "vhost_1"));
    assert_eq!(enrolled.host.name, "laptop");
    assert_eq!(enroll_host(Err(StoreError)).unwrap_err(), 500);
    assert_eq!(list_hosts(&here(), Ok(vec![host()])).unwrap().len(), 1);
    assert!(list_hosts(&elsewhere(), Ok(vec![host()])).unwrap().is_empty());
    assert_eq!(list_hosts(&here(), Err(StoreError)).unwrap_err(), 500);
}

// --- enrollment tokens -----------------------------------------------------------

fn token() -> EnrollmentToken {
    EnrollmentToken {
        id: "et_1".into(),
        workspace_id: WorkspaceId::default(),
        max_uses: Some(2),
        uses: 0,
        created_at: at(0),
        revoked_at: None,
    }
}

#[test]
fn mint_rejects_a_nonpositive_use_cap() {
    let begun = |max_uses: Option<i64>| begin_mint(MintEnrollmentTokenRequest { max_uses });
    assert!(matches!(begun(Some(0)), RouteStep::Refuse(422)));
    assert!(matches!(begun(Some(3)), RouteStep::Act(request) if request.max_uses == Some(3)));
    let mint = |max_uses: Option<i64>| check_mint(&MintEnrollmentTokenRequest { max_uses });
    assert_eq!(mint(Some(0)), Err(422));
    assert_eq!(mint(Some(-1)), Err(422));
    assert_eq!(mint(Some(1)), Ok(()));
    assert_eq!(mint(None), Ok(()));
}

#[test]
fn minted_token_enrolls_an_ephemeral_host_that_runs_an_echo_session() {
    let (status, minted) = mint_enrollment_token(Ok((token(), "venroll_1".into()))).unwrap();
    assert_eq!((status, minted.secret.as_str()), (201, "venroll_1"));
    assert_eq!((minted.token.uses, minted.token.max_uses), (0, Some(2)));
    let (status, enrolled) = exchange_enrollment_token(Ok(Some((host(), "vhost_2".into())))).unwrap();
    assert_eq!((status, enrolled.token.as_str()), (201, "vhost_2"));
    assert!(enrolled.host.ephemeral);
    assert_eq!(enrolled.host.workspace_id, WorkspaceId::default());
    assert_eq!(mint_enrollment_token(Err(StoreError)).unwrap_err(), 500);

    // The fresh token drives the pull protocol like any other host's.
    let authed = AuthedHost::from_request(true, Ok(Some(enrolled.host))).unwrap();
    let settings = Ok(parse_json("{}").unwrap());
    assert!(claim(Ok(None), &settings).unwrap().session.is_none());
    let claimed = claim(Ok(Some(session("ses_1"))), &settings).unwrap();
    let running = claimed.session.unwrap();
    assert_eq!((running.id.as_str(), running.status), ("ses_1", SessionStatus::Running));
    assert_eq!(running.host_id.as_deref(), Some(authed.0.id.as_str()));
    assert_eq!(report_events(Ok(Some(()))), Ok(204));
    let report = FinishRequest {
        status: SessionStatus::Completed,
        stop_reason: Some("end_turn".into()),
        error: None,
        outcome: None,
    };
    assert!(matches!(begin_finish(report), RouteStep::Act(report)
        if report.stop_reason.as_deref() == Some("end_turn")));
    let mut completed = running;
    completed.status = SessionStatus::Completed;
    let finished = finish(Ok(()), Ok(Some(completed))).unwrap();
    assert_eq!(finished.status, SessionStatus::Completed);

    // The user-facing API sees the completed session and its events.
    let fetched = get_session(&here(), Ok(Some(finished))).unwrap();
    assert_eq!(fetched.status, SessionStatus::Completed);
    let mut cursor = EventCursor::new(&EventsQuery {
        after_seq: None,
        limit: None,
    });
    let hello = SessionEvent {
        seq: 1,
        payload: parse_json(r#"{"sessionUpdate":"agent_message_chunk","text":"hello"}"#).unwrap(),
    };
    assert_eq!(cursor.read(Ok(vec![hello])), ReadStep::Next);
    match cursor.next() {
        TailStep::Emit(event) => {
            assert_eq!(event.seq, 1);
            assert_eq!(event.payload.get("text").unwrap().as_str(), Some("hello"));
        }
        other => panic!("{other:?}"),
    }

    // Listing counts the use.
    let mut used = token();
    used.uses = 1;
    let mut foreign = token();
    foreign.workspace_id = elsewhere();
    let listed = list_enrollment_tokens(&here(), Ok(vec![foreign, used])).unwrap();
    assert_eq!(listed.len(), 1);
    assert_eq!(listed[0].uses, 1);
    assert_eq!(list_enrollment_tokens(&here(), Err(StoreError)).unwrap_err(), 500);
}

#[test]
fn exchange_rejects_exhausted_unknown_and_revoked_tokens() {
    assert_eq!(exchange_enrollment_token(Ok(None)).unwrap_err(), 401);
    assert_eq!(exchange_enrollment_token(Err(StoreError)).unwrap_err(), 500);
    let mut revoked = token();
    revoked.revoked_at = Some(at(5));
    let revoked = revoke_enrollment_token(Ok(Some(revoked))).unwrap();
    assert_eq!((revoked.id.as_str(), revoked.revoked_at), ("et_1", Some(at(5))));
    assert_eq!(revoke_enrollment_token(Ok(None)).unwrap_err(), 404);
    assert_eq!(revoke_enrollment_token(Err(StoreError)).unwrap_err(), 500);

    // Only the one successful exchange enrolled a host.
    let exchanged = exchange_enrollment_token(Ok(Some((host(), "vhost_2".into())))).unwrap();
    assert_eq!(exchanged.0, 201);
    assert_eq!(list_hosts(&here(), Ok(vec![exchanged.1.host])).unwrap().len(), 1);
}

// --- routines --------------------------------------------------------------------

fn routine() -> Routine {
    Routine {
        id: "rt_1".into(),
        workspace_id: WorkspaceId::default(),
        name: "nightly".into(),
        cron: "0 3 * * *".into(),
        timezone: "UTC".into(),
        spec: SessionSpec {
            agent: agent("robot"),
            environment: environment(),
            input: "tidy up".into(),
        },
        enabled: true,
        next_run_at: Some(at(10)),
    }
}

fn request(cron: &str) -> CreateRoutineRequest {
    CreateRoutineRequest {
        name: "nightly triage".into(),
        cron: cron.into(),
        timezone: "America/New_York".into(),
        spec: routine().spec,
    }
}

#[test]
fn create_returns_routine_with_next_run_at() {
    assert_eq!(check_routine(true, true, true), Ok(()));
    let asked = request("0 2 * * *");
    assert!(matches!(begin_create_routine(asked, true, true, true), RouteStep::Act(new)
        if new.name == "nightly triage" && new.cron == "0 2 * * *"));
    let (status, created) = create_routine(Ok(routine())).unwrap();
    assert_eq!(status, 201);
    assert!(created.next_run_at.is_some() && created.enabled);
    assert_eq!(create_routine(Err(StoreError)).unwrap_err(), 500);
}

#[test]
fn create_rejects_bad_cron() {
    // Sub-15-minute floor, then a malformed schedule: nothing is stored.
    let step = begin_create_routine(request("*/5 * * * *"), true, false, true);
    assert!(matches!(step, RouteStep::Refuse(422)));
    let step = begin_create_routine(request("not a cron"), true, false, false);
    assert!(matches!(step, RouteStep::Refuse(422)));
    assert_eq!(check_routine(true, true, false), Err(422));
    assert_eq!(check_routine(true, false, true), Err(422));
    assert_eq!(check_routine(false, true, true), Err(422));
}

#[test]
fn list_and_get_are_workspace_scoped() {
    let named = |id: &str, workspace: WorkspaceId| {
        let mut routine = routine();
        routine.id = id.into();
        routine.workspace_id = workspace;
        routine
    };
    let all = || {
        Ok(vec![
            named("rt_1", here()),
            named("rt_2", elsewhere()),
            named("rt_3", here()),
        ])
    };
    let ids = |workspace: &WorkspaceId| {
        let listed = list_routines(workspace, all()).unwrap();
        listed.routines.into_iter().map(|routine| routine.id).collect::<Vec<String>>()
    };
    assert_eq!(ids(&here()), vec!["rt_1", "rt_3"]);
    assert_eq!(ids(&elsewhere()), vec!["rt_2"]);
    assert_eq!(list_routines(&here(), Err(StoreError)).unwrap_err(), 500);
    assert_eq!(get_routine(&here(), Ok(Some(routine()))).unwrap().id, "rt_1");
    assert_eq!(get_routine(&elsewhere(), Ok(Some(routine()))).unwrap_err(), 404);
    assert_eq!(get_routine(&here(), Ok(None)).unwrap_err(), 404);
    assert_eq!(get_routine(&here(), Err(StoreError)).unwrap_err(), 500);
}

#[test]
fn updates_are_checked_before_the_routine_is_looked_up() {
    assert_eq!(check_update(None, None, Ok(true)), Ok(()));
    assert_eq!(check_update(Some(true), Some(true), Ok(true)), Ok(()));
    assert_eq!(check_update(Some(false), None, Ok(false)), Err(422));
    assert_eq!(check_update(None, Some(false), Err(StoreError)), Err(422));
    assert_eq!(check_update(None, None, Ok(false)), Err(404));
    assert_eq!(check_update(None, None, Err(StoreError)), Err(500));
    let change = || UpdateRoutineRequest {
        name: None,
        cron: None,
        timezone: None,
        spec: None,
        enabled: Some(false),
    };
    assert!(matches!(begin_update_routine(change(), None, None, Ok(true)), RouteStep::Act(change)
        if change.enabled == Some(false)));
    let step = begin_update_routine(change(), None, None, Ok(false));
    assert!(matches!(step, RouteStep::Refuse(404)));
    let step = begin_update_routine(change(), Some(false), None, Ok(true));
    assert!(matches!(step, RouteStep::Refuse(422)));
    assert_eq!(update_routine(Ok(Some(routine()))).unwrap().id, "rt_1");
    assert_eq!(update_routine(Ok(None)).unwrap_err(), 404);
    assert_eq!(update_routine(Err(StoreError)).unwrap_err(), 422);
}

#[test]
fn run_now_returns_session_and_appears_in_runs() {
    let (status, run) = run_routine(Ok(Some(session("ses_1")))).unwrap();
    assert_eq!((status, run.id.as_str()), (201, "ses_1"));
    assert_eq!(run_routine(Ok(None)).unwrap_err(), 404);
    assert_eq!(run_routine(Err(StoreError)).unwrap_err(), 500);
    let runs = list_routine_runs(Ok(true), Some(Ok(vec![session("ses_1")]))).unwrap();
    assert_eq!(runs.sessions[0].id, "ses_1");
    assert_eq!(list_routine_runs(Ok(false), None).unwrap_err(), 404);
    assert_eq!(list_routine_runs(Err(StoreError), None).unwrap_err(), 500);
    assert_eq!(list_routine_runs(Ok(true), Some(Err(StoreError))).unwrap_err(), 500);
}

#[test]
fn delete_then_get_404() {
    assert_eq!(delete_routine(Ok(())), Ok(204));
    assert_eq!(delete_routine(Err(StoreError)), Err(500));
    assert_eq!(get_routine(&here(), Ok(None)).unwrap_err(), 404);
}

#[test]
fn scheduler_run_once_spawns_due_session() {
    let scheduler = RoutineScheduler::new(30);
    assert_eq!(scheduler.interval_secs, 30);
    let pass = RoutineReport {
        spawned: 1,
        skipped: 0,
        failed: 0,
    };
    assert_eq!(scheduler.run_once(Ok(pass)), (pass, true));
    let quiet = RoutineReport::default();
    assert_eq!(scheduler.run_once(Ok(quiet)), (quiet, false));
    assert_eq!(scheduler.run_once(Err(StoreError)), (quiet, true));
}

#[test]
fn configuration_of_the_server() {
    assert_eq!(env_value(Some("  x \n".into())).as_deref(), Some("x"));
    assert_eq!(env_value(Some("  ".into())), None);
    assert_eq!(env_value(None), None);
    assert_eq!(env_number("18446744073709551615"), Some(u64::MAX));
    assert_eq!(env_number("18446744073709551616"), None);
    assert_eq!(env_number("x"), None);
    assert_eq!(poll_interval_secs(None), Some(60));
    assert_eq!(poll_interval_secs(Some("0")), Some(1));
    assert_eq!(poll_interval_secs(Some("300")), Some(300));
    assert_eq!(poll_interval_secs(Some("soon")), None);
}

// --- sessions --------------------------------------------------------------------

#[test]
fn sessions_are_created_listed_and_read() {
    let (status, created) = create_session(true, Some(Ok(session("ses_1")))).unwrap();
    assert_eq!((status, created.id.as_str()), (201, "ses_1"));
    assert_eq!(create_session(false, None).unwrap_err(), 422);
    assert_eq!(create_session(true, Some(Err(StoreError))).unwrap_err(), 500);
    let page = list_sessions(&here(), Ok(vec![session("a"), session("b")])).unwrap();
    assert_eq!((page.sessions.len(), page.next_cursor), (2, None));
    assert_eq!(list_sessions(&here(), Err(StoreError)).unwrap_err(), 500);
    assert_eq!(get_session(&here(), Ok(Some(session("a")))).unwrap().id, "a");
    assert_eq!(get_session(&here(), Ok(None)).unwrap_err(), 404);
    assert_eq!(get_session(&here(), Err(StoreError)).unwrap_err(), 500);
}

#[test]
fn an_external_extractor_replaces_the_oss_ones() {
    // A session created through the OSS extractor lands in the default
    // workspace.
    let created = session("ses_1");
    assert_eq!(created.workspace_id, here());

    // Alice is scoped to her own workspace, so the default workspace's
    // session is invisible to her.
    let alice = Caller::new("alice").with_workspace("ws-alice");
    let listed = list_sessions(&alice.workspace, Ok(vec![session("ses_1")])).unwrap();
    assert!(listed.sessions.is_empty());
    assert_eq!(get_session(&alice.workspace, Ok(Some(created))).unwrap_err(), 404);
    let mut own = session("ses_2");
    own.workspace_id = elsewhere();
    let stored = Ok(vec![session("ses_1"), own, session("ses_3")]);
    let listed = list_sessions(&alice.workspace, stored).unwrap();
    assert_eq!(listed.sessions.len(), 1);
    assert_eq!(listed.sessions[0].id, "ses_2");

    // Host-protocol routes are untouched by the swap.
    assert_eq!(AuthedHost::from_request(false, Ok(None)).unwrap_err(), 401);

    // The default caller sees the default workspace.
    let anyone = Caller::anonymous();
    let listed = list_sessions(&anyone.workspace, Ok(vec![session("ses_1")])).unwrap();
    assert_eq!(listed.sessions.len(), 1);
}

#[test]
fn an_invalid_environment_stores_nothing() {
    let new = || NewSession {
        agent: agent("robot"),
        environment: environment(),
        input: "x".into(),
        parent_session_id: None,
    };
    assert!(matches!(begin_create_session(new(), true), RouteStep::Act(new) if new.input == "x"));
    assert!(matches!(begin_create_session(new(), false), RouteStep::Refuse(422)));
}

#[test]
fn finished_sessions_are_not_cancelled() {
    assert_eq!(cancel_session(Ok(Some(session("a"))), Ok(false)).unwrap().id, "a");
    assert_eq!(cancel_session(Ok(None), Ok(true)).unwrap_err(), 409);
    assert_eq!(cancel_session(Ok(None), Ok(false)).unwrap_err(), 404);
    assert_eq!(cancel_session(Ok(None), Err(StoreError)).unwrap_err(), 500);
    assert_eq!(cancel_session(Err(StoreError), Ok(true)).unwrap_err(), 500);
}

/// What GitHub holds about the pull request: a review, a thread with a reply,
/// and checks of which one failed.
fn mounted_feedback() -> FollowUpContext {
    let user = |login: &str| {
        Some(GitHubUser {
            login: login.into(),
        })
    };
    let review = Review {
        id: 1,
        user: user("alice"),
        state: "CHANGES_REQUESTED".into(),
        body: Some("Please split this function up.".into()),
        commit_id: Some("sha1".into()),
        submitted_at: None,
        html_url: None,
    };
    let comment = |id: u64, reply_to: Option<u64>, login: &str, body: &str| ReviewComment {
        id,
        in_reply_to_id: reply_to,
        user: user(login),
        path: "src/lib.rs".into(),
        line: Some(42),
        original_line: Some(40),
        body: body.into(),
        diff_hunk: None,
        html_url: None,
        created_at: None,
    };
    let check = |name: &str, status: &str, conclusion: Option<&str>| CheckRun {
        name: name.into(),
        status: status.into(),
        conclusion: conclusion.map(Into::into),
        details_url: None,
        html_url: None,
    };
    assemble_context(
        feedback().pr,
        vec![review],
        vec![
            comment(1, None, "alice", "rename this to `reduce`"),
            comment(2, Some(1), "bob", "+1"),
        ],
        vec![
            check("clippy", "completed", Some("failure")),
            check("test", "completed", Some("success")),
            check("docs", "queued", None),
        ],
    )
}

#[test]
fn composes_review_feedback_and_targets_the_head_branch() {
    let root = pr_session(17);
    let (follow_up, _) = FollowUp::begin(
        here(),
        FollowUpRequest {
            instructions: Some("Keep the public API stable.".into()),
            agent: None,
        },
        true,
    );
    let (follow_up, _) = follow_up.step(FollowUpEvent::Parent(Ok(Some(pr_session(17)))));
    let (follow_up, _) = follow_up.step(FollowUpEvent::Root(Ok(Some(pr_session(17)))));
    let (follow_up, _) = follow_up.step(FollowUpEvent::Pull(Ok(pull(false, false))));
    let (follow_up, action) = follow_up.step(FollowUpEvent::Feedback(Ok(mounted_feedback())));
    let created = match action {
        FollowUpAction::Store(new) => new,
        other => panic!("{other:?}"),
    };
    let (_, action) = follow_up.step(FollowUpEvent::Stored(Ok(session("ses_new"))));
    assert!(matches!(action, FollowUpAction::Answer(Ok((201, _)))));

    assert_eq!(created.parent_session_id.as_deref(), Some(root.id.as_str()));
    assert_eq!(created.environment.kind, "github_repo");
    assert_eq!(created.environment.repo.as_deref(), Some("acme/widgets"));
    assert_eq!(
        created.environment.base_branch.as_deref(),
        Some("vise/feature"),
        "follow-up pushes to the PR's head branch"
    );

    // Agent config inherited from the parent.
    assert_eq!(created.agent, root.agent);

    // Review content is frozen into the input.
    let input = &created.input;
    assert!(input.contains("https://github.com/acme/widgets/pull/17"), "{input}");
    assert!(input.contains("Please split this function up."), "{input}");
    assert!(input.contains("`src/lib.rs` line 42"), "{input}");
    assert!(input.contains("rename this to `reduce`"), "{input}");
    assert!(input.contains("@bob replied"), "{input}");
    assert!(input.contains("- clippy"), "{input}");
    assert!(!input.contains("- test"), "passing checks are not listed: {input}");
    assert!(!input.contains("- docs"), "pending checks are not listed: {input}");
    assert!(input.contains("Keep the public API stable."), "{input}");

    // The parts of the way give the same session.
    let pr = follow_up_pull(&Ok(Some(session("ses_parent"))), &Ok(Some(root)), true).unwrap();
    let read = follow_up_snapshot(Ok(pull(false, false))).unwrap();
    let parts = follow_up_session(None, session("ses_parent"), &pr, &read, input.clone());
    assert_eq!(parts.parent_session_id.as_deref(), Some("ses_parent"));
    assert_eq!(parts.environment, created.environment);
    assert_eq!(&parts.input, input);
}

#[test]
fn follow_ups_chain_and_resolve_tracking_to_the_root() {
    // Follow-up of a follow-up: no PR outcome of its own, but the chain
    // resolves to the root's PR.
    let request = FollowUpRequest {
        instructions: None,
        agent: None,
    };
    let (follow_up, _) = FollowUp::begin(here(), request, true);
    let (follow_up, _) = follow_up.step(FollowUpEvent::Parent(Ok(Some(session("ses_first")))));
    let (follow_up, _) = follow_up.step(FollowUpEvent::Root(Ok(Some(pr_session(17)))));
    let (follow_up, _) = follow_up.step(FollowUpEvent::Pull(Ok(pull(false, false))));
    let (_, action) = follow_up.step(FollowUpEvent::Feedback(Ok(mounted_feedback())));
    match action {
        FollowUpAction::Store(second) => {
            assert_eq!(second.parent_session_id.as_deref(), Some("ses_first"));
            assert_eq!(second.environment.base_branch.as_deref(), Some("vise/feature"));
        }
        other => panic!("{other:?}"),
    }
}

#[test]
fn follow_ups_stay_in_their_workspace() {
    let request = || FollowUpRequest {
        instructions: None,
        agent: None,
    };
    let (follow_up, _) = FollowUp::begin(elsewhere(), request(), true);
    let (_, action) = follow_up.step(FollowUpEvent::Parent(Ok(Some(session("ses_parent")))));
    assert!(matches!(action, FollowUpAction::Answer(Err(404))));
    let (follow_up, _) = FollowUp::begin(here(), request(), true);
    let (follow_up, _) = follow_up.step(FollowUpEvent::Parent(Ok(Some(session("ses_parent")))));
    let mut foreign = pr_session(17);
    foreign.workspace_id = elsewhere();
    let (_, action) = follow_up.step(FollowUpEvent::Root(Ok(Some(foreign))));
    assert!(matches!(action, FollowUpAction::Answer(Err(404))));
}

#[test]
fn agent_override_replaces_inherited_config() {
    let pr = PullRef::parse("https://github.com/acme/widgets/pull/17").unwrap();
    let created = follow_up_session(
        Some(agent("echo")),
        session("ses_parent"),
        &pr,
        &pull(false, false),
        String::new(),
    );
    assert_eq!(created.agent.harness, "echo");
}

#[test]
fn rejects_merged_and_closed_prs() {
    let parent = || Ok(Some(session("ses_parent")));
    // Merged per the snapshot: rejected without touching GitHub.
    for state in [PrState::Merged, PrState::Closed] {
        let root = Ok(Some(with_state(pr_session(1), state)));
        assert_eq!(follow_up_pull(&parent(), &root, true).unwrap_err(), 409);
        assert_eq!(follow_up_pull(&parent(), &root, false).unwrap_err(), 409);
    }
    // Snapshot not yet synced but GitHub says closed: also rejected.
    assert!(follow_up_pull(&parent(), &Ok(Some(pr_session(3))), true).is_ok());
    assert_eq!(follow_up_snapshot(Ok(pull(true, false))).unwrap_err(), 409);
    assert_eq!(follow_up_snapshot(Ok(pull(false, true))).unwrap_err(), 409);

    let approved = Ok(Some(with_state(pr_session(4), PrState::Approved)));
    assert_eq!(follow_up_pull(&parent(), &approved, true).unwrap().number, 4);
}

#[test]
fn rejects_sessions_without_a_pr() {
    let parent = || Ok(Some(session("ses_parent")));
    let mut no_pr = pr_session(1);
    no_pr.outcome = Some(SessionOutcome {
        kind: "pushed_no_pr".into(),
        pr_url: None,
        branch: Some("vise/x".into()),
    });
    assert_eq!(follow_up_pull(&parent(), &Ok(Some(no_pr)), true).unwrap_err(), 422);
    assert_eq!(follow_up_pull(&Ok(None), &Ok(None), true).unwrap_err(), 404);
    assert_eq!(follow_up_pull(&parent(), &Ok(None), true).unwrap_err(), 404);
    assert_eq!(follow_up_pull(&Err(StoreError), &Ok(None), true).unwrap_err(), 500);
    assert_eq!(follow_up_pull(&parent(), &Err(StoreError), true).unwrap_err(), 500);
}

#[test]
fn requires_the_github_credential_provider() {
    let parent = Ok(Some(session("ses_parent")));
    assert_eq!(follow_up_pull(&parent, &Ok(Some(pr_session(17))), false).unwrap_err(), 503);
}

#[test]
fn unreadable_feedback_is_a_bad_gateway() {
    let error = || {
        status_error(
            500,
            &RateHeaders {
                remaining: None,
                retry_after: false,
                reset: None,
            },
        )
    };
    assert_eq!(follow_up_snapshot(Err(error())).unwrap_err(), 502);
    assert_eq!(follow_up_feedback::<u8>(Err(error())), Err(502));
    assert_eq!(follow_up_feedback::<u8>(Ok(7)), Ok(7));
    let auth = GithubError::Auth("no key".into());
    assert_eq!(follow_up_feedback::<u8>(Err(auth)), Err(502));
}

#[test]
fn event_queries_have_defaults_and_bounds() {
    let query = |after_seq: Option<i64>, limit: Option<i64>| {
        get_events(&EventsQuery { after_seq, limit })
    };
    assert_eq!(query(None, None), (0, 1000));
    assert_eq!(query(Some(7), Some(0)), (7, 1));
    assert_eq!(query(Some(-3), Some(i64::MAX)), (-3, 10_000));
    assert_eq!(query(None, Some(42)), (0, 42));
}

fn event(seq: i64) -> SessionEvent {
    SessionEvent {
        seq,
        payload: parse_json("{}").unwrap(),
    }
}

#[test]
fn a_tail_hands_out_every_event_once() {
    let mut cursor = EventCursor::new(&EventsQuery {
        after_seq: Some(1),
        limit: None,
    });
    assert!(matches!(cursor.next(), TailStep::Fetch { after_seq: 1, limit: 256 }));
    assert!(cursor.fetched(vec![event(2), event(3), event(5)]));
    for seq in [2, 3, 5] {
        match cursor.next() {
            TailStep::Emit(event) => assert_eq!(event.seq, seq),
            other => panic!("{other:?}"),
        }
    }
    assert!(matches!(cursor.next(), TailStep::Fetch { after_seq: 5, limit: 256 }));
    assert!(!cursor.fetched(vec![]));
    assert_eq!(cursor.read(Ok(vec![])), ReadStep::Idle);
    assert_eq!(cursor.read(Err(StoreError)), ReadStep::Wait);

    assert!(matches!(cursor.idle(&Ok(Some(session("a")))), IdleStep::Wait));
    assert!(matches!(cursor.next(), TailStep::Fetch { after_seq: 5, limit: 256 }));
    let mut done = session("a");
    done.status = SessionStatus::Failed;
    assert!(matches!(cursor.idle(&Ok(Some(done))), IdleStep::Done(text) if text == "failed"));
    assert!(matches!(cursor.next(), TailStep::Close));
}

/// A follow-up of `ses_parent` whose pull request is being read.
fn reading_the_pull(request: FollowUpRequest) -> FollowUp {
    let (follow_up, action) = FollowUp::begin(here(), request, true);
    assert!(matches!(action, FollowUpAction::ReadParent));
    let (follow_up, action) = follow_up.step(FollowUpEvent::Parent(Ok(Some(session("ses_parent")))));
    assert!(matches!(action, FollowUpAction::ReadRoot));
    let (follow_up, action) = follow_up.step(FollowUpEvent::Root(Ok(Some(pr_session(17)))));
    assert!(matches!(action, FollowUpAction::ReadPull));
    follow_up
}

fn feedback() -> FollowUpContext {
    FollowUpContext {
        pr: PullRequest {
            number: 17,
            state: "open".into(),
            merged: false,
            html_url: "https://github.com/acme/widgets/pull/17".into(),
            title: "Add widgets".into(),
            head: GitRef {
                name: "vise/feature".into(),
                sha: "sha1".into(),
            },
            base: GitRef {
                name: "main".into(),
                sha: "sha0".into(),
            },
            user: None,
        },
        reviews: vec![],
        threads: vec![],
        failing_checks: vec![],
    }
}

#[test]
fn a_follow_up_goes_from_the_session_to_the_answer() {
    let follow_up = reading_the_pull(FollowUpRequest {
        instructions: Some("Be quick.".into()),
        agent: None,
    });
    assert!(matches!(&follow_up.stage, FollowUpStage::Pull { pr, .. } if pr.number == 17));
    let (follow_up, action) = follow_up.step(FollowUpEvent::Pull(Ok(pull(false, false))));
    assert!(matches!(action, FollowUpAction::ReadFeedback));
    let (follow_up, action) = follow_up.step(FollowUpEvent::Feedback(Ok(feedback())));
    match action {
        FollowUpAction::Store(new) => {
            assert_eq!(new.input, compose_input(&feedback(), Some("Be quick.")));
            assert_eq!(new.agent.harness, "robot");
            assert_eq!(new.environment.kind, "github_repo");
            assert_eq!(new.environment.repo.as_deref(), Some("acme/widgets"));
            assert_eq!(new.environment.base_branch.as_deref(), Some("vise/feature"));
            assert_eq!(new.parent_session_id.as_deref(), Some("ses_parent"));
        }
        other => panic!("{other:?}"),
    }
    let (follow_up, action) = follow_up.step(FollowUpEvent::Stored(Ok(session("ses_new"))));
    assert!(matches!(action, FollowUpAction::Answer(Ok((201, session))) if session.id == "ses_new"));
    assert!(matches!(follow_up.stage, FollowUpStage::Ended));
}

#[test]
fn a_refused_follow_up_is_answered_at_once() {
    let request = || FollowUpRequest {
        instructions: None,
        agent: Some(agent("other")),
    };
    let code = |answered: (FollowUp, FollowUpAction)| match answered.1 {
        FollowUpAction::Answer(Err(code)) => code,
        other => panic!("{other:?}"),
    };
    let begun = |configured: bool| FollowUp::begin(here(), request(), configured).0;
    assert_eq!(code(begun(true).step(FollowUpEvent::Parent(Ok(None)))), 404);
    assert_eq!(code(begun(true).step(FollowUpEvent::Parent(Err(StoreError)))), 500);

    let parent = || FollowUpEvent::Parent(Ok(Some(session("ses_parent"))));
    let merged = with_state(pr_session(17), PrState::Merged);
    let (read, _) = begun(true).step(parent());
    assert_eq!(code(read.step(FollowUpEvent::Root(Ok(Some(merged))))), 409);
    let (read, _) = begun(false).step(parent());
    assert_eq!(code(read.step(FollowUpEvent::Root(Ok(Some(pr_session(17)))))), 503);

    let closed = FollowUpEvent::Pull(Ok(pull(true, false)));
    assert_eq!(code(reading_the_pull(request()).step(closed)), 409);
    let (read, _) = reading_the_pull(request()).step(FollowUpEvent::Pull(Ok(pull(false, false))));
    let failed = GithubError::Auth("no token".into());
    assert_eq!(code(read.step(FollowUpEvent::Feedback(Err(failed)))), 502);
    let (read, _) = reading_the_pull(request()).step(FollowUpEvent::Pull(Ok(pull(false, false))));
    let (read, action) = read.step(FollowUpEvent::Feedback(Ok(feedback())));
    assert!(matches!(action, FollowUpAction::Store(new) if new.agent.harness == "other"));
    assert_eq!(code(read.step(FollowUpEvent::Stored(Err(StoreError)))), 500);
}

#[test]
fn a_tail_follows_the_pull_request_to_its_end() {
    let mut cursor = EventCursor::new(&EventsQuery {
        after_seq: None,
        limit: None,
    });
    assert!(is_tracking_pr(&pr_session(1)));
    assert!(matches!(cursor.idle(&Ok(Some(pr_session(1)))), IdleStep::Wait));
    let approved = with_state(pr_session(1), PrState::Approved);
    assert!(matches!(cursor.idle(&Ok(Some(approved))), IdleStep::Wait));
    let merged = with_state(pr_session(1), PrState::Merged);
    assert!(!is_tracking_pr(&merged));
    assert!(matches!(cursor.idle(&Ok(Some(merged))), IdleStep::Done(text) if text == "merged"));
    assert!(matches!(cursor.idle(&Ok(None)), IdleStep::Close));
    assert!(matches!(cursor.idle(&Err(StoreError)), IdleStep::Close));
}
