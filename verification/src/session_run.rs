//! A session on its host: from the claim to the report, and what happens to
//! its workspace.

use vstd::prelude::*;
use vstd::string::*;

use crate::acp::Harness;
use crate::model::{terminal_status, Environment, SessionOutcome, SessionStatus};
use crate::runtime::RunOutcome;
use crate::text::{same_text, string_views};

verus! {

/// How often a host reports that it is alive, in seconds. The claim's lease is
/// three times as long.
pub const HEARTBEAT_SECS: u64 = 20;

/// How often the repository's credential is renewed, in seconds.
pub const TOKEN_REFRESH_SECS: u64 = 2700;

/// What a host offers when it asks for work.
#[derive(Debug)]
pub struct ClaimRequest {
    pub harnesses: Vec<String>,
    pub environment_types: Vec<String>,
}

/// What this host offers when it asks for work: the harnesses it is
/// configured with, on its own disk or in a clone.
pub fn claim_request(known: &[Harness]) -> (r: ClaimRequest)
    ensures
        string_views(r.harnesses@) == known@.map_values(|h: Harness| h.name@),
        string_views(r.environment_types@) == seq!["self_hosted"@, "github_repo"@],
{
    let mut harnesses: Vec<String> = Vec::new();
    let mut i: usize = 0;
    while i < known.len()
        invariant
            i <= known.len(),
            harnesses.len() == i,
            forall|k: int| 0 <= k < i ==> (#[trigger] harnesses[k])@ == known[k].name@,
        decreases known.len() - i,
    {
        harnesses.push(known[i].name.as_str().to_owned());
        i = i + 1;
    }
    let mut environment_types: Vec<String> = Vec::new();
    environment_types.push("self_hosted".to_owned());
    environment_types.push("github_repo".to_owned());
    assert(string_views(harnesses@) =~= known@.map_values(|h: Harness| h.name@));
    assert(string_views(environment_types@) =~= seq!["self_hosted"@, "github_repo"@]);
    ClaimRequest { harnesses, environment_types }
}

/// True when a session is run by the echo runtime, not by an agent.
pub fn runs_echo(harness: &str) -> (r: bool)
    ensures
        r == (harness@ == "echo"@),
{
    same_text(harness, "echo")
}

/// The repository a session's workspace is a clone of, when it is one.
pub fn repo_to_clone(environment: &Environment) -> (r: Result<Option<&str>, String>)
    ensures
        if environment.kind@ != "github_repo"@ {
            r matches Ok(None)
        } else {
            match environment.repo {
                Some(repo) => r matches Ok(Some(name)) && name@ == repo@,
                None => r matches Err(e) && e@
                    == "github_repo session has no environment.repo"@,
            }
        },
{
    if !same_text(environment.kind.as_str(), "github_repo") {
        return Ok(None);
    }
    match &environment.repo {
        Some(repo) => Ok(Some(repo.as_str())),
        None => Err("github_repo session has no environment.repo".to_owned()),
    }
}

/// What an agent is told about the clone it works in, before its task.
pub open spec fn repo_prompt(repo: Seq<char>, base: Seq<char>, input: Seq<char>) -> Seq<char> {
    "You are working in a clone of "@ + repo + " (currently on branch "@ + base
        + "). Complete the task below. When done: create a descriptively named branch, commit your work with clear messages, push it, and open a pull request with `gh pr create`. Report the PR URL in your final message.\n\n"@
        + input
}

/// The session's input with what the agent is told about its clone.
pub fn repo_input(repo: &str, base_branch: &str, input: &str) -> (r: String)
    ensures
        r@ == repo_prompt(repo@, base_branch@, input@),
{
    let mut out = "You are working in a clone of ".to_owned();
    out.append(repo);
    out.append(" (currently on branch ");
    out.append(base_branch);
    out.append(
        "). Complete the task below. When done: create a descriptively named branch, commit your work with clear messages, push it, and open a pull request with `gh pr create`. Report the PR URL in your final message.\n\n",
    );
    out.append(input);
    out
}

/// What a host reports when a session is over.
#[derive(Debug)]
pub struct FinishRequest {
    pub status: SessionStatus,
    pub stop_reason: Option<String>,
    pub error: Option<String>,
    pub outcome: Option<SessionOutcome>,
}

/// The report for a session whose workspace could not be prepared.
pub fn preparation_failed(error: String) -> (r: FinishRequest)
    ensures
        r.status == SessionStatus::Failed,
        r.error == Some(error),
        r.stop_reason is None,
        r.outcome is None,
{
    FinishRequest {
        status: SessionStatus::Failed,
        stop_reason: None,
        error: Some(error),
        outcome: None,
    }
}

/// True when the outcome of a run is worth detecting: the session works in a
/// clone, and the run did not fail.
pub fn detects_outcome(in_clone: bool, result: &Result<RunOutcome, String>) -> (r: bool)
    ensures
        r == (in_clone && result is Ok),
{
    in_clone && result.is_ok()
}

/// The report for a session that ran.
pub fn finish_request(
    result: Result<RunOutcome, String>,
    outcome: Option<SessionOutcome>,
) -> (r: FinishRequest)
    ensures
        r.outcome == outcome,
        match result {
            Ok(RunOutcome::Completed { stop_reason }) => r.status == SessionStatus::Completed
                && r.stop_reason == Some(stop_reason) && r.error is None,
            Ok(RunOutcome::Cancelled) => r.status == SessionStatus::Cancelled && r.stop_reason
                is None && r.error is None,
            Err(error) => r.status == SessionStatus::Failed && r.stop_reason is None && r.error
                == Some(error),
        },
        terminal_status(r.status),
{
    let (status, stop_reason, error): (SessionStatus, Option<String>, Option<String>) =
        match result {
        Ok(RunOutcome::Completed { stop_reason }) => (
            SessionStatus::Completed,
            Some(stop_reason),
            None,
        ),
        Ok(RunOutcome::Cancelled) => (SessionStatus::Cancelled, None, None),
        Err(error) => (SessionStatus::Failed, None, Some(error)),
    };
    FinishRequest { status, stop_reason, error, outcome }
}

/// What happens to a finished session's workspace.
#[derive(Debug, Clone, Copy, PartialEq, Eq, Structural)]
pub struct Cleanup {
    /// The whole directory is removed.
    pub remove: bool,
    /// The token file is removed.
    pub remove_token: bool,
    /// A marker is written, so that startup cleanup leaves the directory alone.
    pub mark_kept: bool,
}

/// The session left work that is nowhere else.
pub open spec fn left_work(outcome: Option<SessionOutcome>) -> bool {
    match outcome {
        Some(o) => o.kind@ == "uncommitted_changes"@,
        None => false,
    }
}

/// What happens to a workspace.
pub open spec fn cleanup_for(in_clone: bool, keep: bool) -> Cleanup {
    Cleanup { remove: in_clone && !keep, remove_token: in_clone && keep, mark_kept: keep }
}

/// What happens to the workspace of a session that ran: it is kept when the
/// host keeps workspaces or the session left work that is nowhere else. A kept
/// clone does not retain the (short-lived) token file; a workspace without a
/// clone stays where it is.
pub fn cleanup(
    in_clone: bool,
    keep_workspaces: bool,
    outcome: &Option<SessionOutcome>,
) -> (r: Cleanup)
    ensures
        r == cleanup_for(in_clone, keep_workspaces || left_work(*outcome)),
{
    let keep: bool = keep_workspaces || match outcome {
        Some(o) => same_text(o.kind.as_str(), "uncommitted_changes"),
        None => false,
    };
    Cleanup { remove: in_clone && !keep, remove_token: in_clone && keep, mark_kept: keep }
}

/// What happens to a workspace that could not be prepared: like any clone, it
/// is kept only when the host keeps workspaces, and then without its token
/// file.
pub fn cleanup_unprepared(keep_workspaces: bool) -> (r: Cleanup)
    ensures
        r == cleanup_for(true, keep_workspaces),
{
    Cleanup {
        remove: !keep_workspaces,
        remove_token: keep_workspaces,
        mark_kept: keep_workspaces,
    }
}

/// Work that is nowhere else is never removed, and no token outlives the
/// clean-up of its session: a clone that is cleaned up, whether it could be
/// prepared or not, is removed or loses its token file. Whatever is kept is
/// marked, but for a workspace without a clone. A clone that could not be
/// prepared is not cleaned up when the report about it fails; it is left for
/// the host to find among its leftovers.
pub proof fn cleanup_is_safe(
    in_clone: bool,
    keep_workspaces: bool,
    outcome: Option<SessionOutcome>,
)
    ensures
        ({
            let ran = cleanup_for(in_clone, keep_workspaces || left_work(outcome));
            let unprepared = cleanup_for(true, keep_workspaces);
            &&& left_work(outcome) ==> !ran.remove && ran.mark_kept
            &&& in_clone ==> ran.remove != ran.remove_token && ran.remove != ran.mark_kept
            &&& unprepared.remove != unprepared.remove_token && unprepared.remove
                != unprepared.mark_kept
            &&& !(ran.remove && ran.mark_kept)
        }),
{
}

// --- the run as a whole -----------------------------------------------------------

/// Where the run of a session stands.
#[derive(Debug)]
pub enum Stage {
    /// The workspace is being made.
    Preparing,
    /// The runtime is at work.
    Running,
    /// The outcome is being detected; this is how the run ended.
    Detecting { result: Result<RunOutcome, String> },
    /// The end is being reported; afterwards this happens to the workspace.
    /// A run's workspace is cleaned up even when the report fails.
    Reporting { ran: bool, cleanup: Cleanup },
    /// The workspace is being cleaned up; this is how the report went.
    Cleaning { reported: Result<(), String> },
    /// Everything is done.
    Ended,
}

/// The run of one session on its host.
#[derive(Debug)]
pub struct SessionRun {
    /// The workspace is a clone of a repository.
    pub in_clone: bool,
    /// The host keeps workspaces.
    pub keep_workspaces: bool,
    pub stage: Stage,
}

/// What came of the work that a run asked for.
#[derive(Debug)]
pub enum RunEvent {
    /// The workspace was made, or could not be.
    Prepared(Result<(), String>),
    /// The runtime ended.
    RunEnded(Result<RunOutcome, String>),
    /// The outcome was detected; `None` when that failed.
    Detected(Option<SessionOutcome>),
    /// The end was reported, or could not be.
    Reported(Result<(), String>),
    /// The workspace was cleaned up.
    CleanedUp,
}

/// The work that a run asks for.
#[derive(Debug)]
pub enum RunAction {
    /// Make the workspace: clone the repository, or create a directory.
    Prepare,
    /// Start the runtime.
    Run,
    /// Detect the outcome.
    Detect,
    /// Report the end to the server.
    Report(FinishRequest),
    /// Clean the workspace up.
    CleanUp(Cleanup),
    /// Nothing: this is how the run ended.
    End(Result<(), String>),
}

/// The event is one that the stage waits for.
pub open spec fn expected(stage: Stage, event: RunEvent) -> bool {
    match stage {
        Stage::Preparing => event is Prepared,
        Stage::Running => event is RunEnded,
        Stage::Detecting { .. } => event is Detected,
        Stage::Reporting { .. } => event is Reported,
        Stage::Cleaning { .. } => event is CleanedUp,
        Stage::Ended => false,
    }
}

/// The report for a session that ran.
pub open spec fn run_report(
    result: Result<RunOutcome, String>,
    outcome: Option<SessionOutcome>,
) -> FinishRequest {
    match result {
        Ok(RunOutcome::Completed { stop_reason }) => FinishRequest {
            status: SessionStatus::Completed,
            stop_reason: Some(stop_reason),
            error: None,
            outcome,
        },
        Ok(RunOutcome::Cancelled) => FinishRequest {
            status: SessionStatus::Cancelled,
            stop_reason: None,
            error: None,
            outcome,
        },
        Err(error) => FinishRequest {
            status: SessionStatus::Failed,
            stop_reason: None,
            error: Some(error),
            outcome,
        },
    }
}

/// The run reports how the session ended.
pub open spec fn reporting(
    run: SessionRun,
    result: Result<RunOutcome, String>,
    outcome: Option<SessionOutcome>,
) -> (SessionRun, RunAction) {
    (
        SessionRun {
            stage: Stage::Reporting {
                ran: true,
                cleanup: cleanup_for(run.in_clone, run.keep_workspaces || left_work(outcome)),
            },
            ..run
        },
        RunAction::Report(run_report(result, outcome)),
    )
}

/// Where a run stands after an event, and the work it asks for.
pub open spec fn run_next(run: SessionRun, event: RunEvent) -> (SessionRun, RunAction) {
    match (run.stage, event) {
        (Stage::Preparing, RunEvent::Prepared(Ok(_))) => (
            SessionRun { stage: Stage::Running, ..run },
            RunAction::Run,
        ),
        (Stage::Preparing, RunEvent::Prepared(Err(error))) => if run.in_clone {
            (
                SessionRun {
                    stage: Stage::Reporting {
                        ran: false,
                        cleanup: cleanup_for(true, run.keep_workspaces),
                    },
                    ..run
                },
                RunAction::Report(
                    FinishRequest {
                        status: SessionStatus::Failed,
                        stop_reason: None,
                        error: Some(error),
                        outcome: None,
                    },
                ),
            )
        } else {
            (SessionRun { stage: Stage::Ended, ..run }, RunAction::End(Err(error)))
        },
        (Stage::Running, RunEvent::RunEnded(result)) => if run.in_clone && result is Ok {
            (SessionRun { stage: Stage::Detecting { result }, ..run }, RunAction::Detect)
        } else {
            reporting(run, result, None)
        },
        (Stage::Detecting { result }, RunEvent::Detected(outcome)) => reporting(
            run,
            result,
            outcome,
        ),
        (Stage::Reporting { ran, cleanup }, RunEvent::Reported(reported)) => if ran || reported
            is Ok {
            (SessionRun { stage: Stage::Cleaning { reported }, ..run }, RunAction::CleanUp(cleanup))
        } else {
            (SessionRun { stage: Stage::Ended, ..run }, RunAction::End(reported))
        },
        (Stage::Cleaning { reported }, _) => (
            SessionRun { stage: Stage::Ended, ..run },
            RunAction::End(reported),
        ),
        _ => (run, RunAction::End(Ok(()))),
    }
}

impl SessionRun {
    /// Begins the run of a claimed session.
    pub fn begin(environment: &Environment, keep_workspaces: bool) -> (r: (SessionRun, RunAction))
        ensures
            r.0 == (SessionRun {
                in_clone: environment.kind@ == "github_repo"@,
                keep_workspaces,
                stage: Stage::Preparing,
            }),
            r.1 is Prepare,
    {
        let in_clone: bool = same_text(environment.kind.as_str(), "github_repo");
        (SessionRun { in_clone, keep_workspaces, stage: Stage::Preparing }, RunAction::Prepare)
    }

    /// Reports how the session ended.
    fn report(
        in_clone: bool,
        keep_workspaces: bool,
        result: Result<RunOutcome, String>,
        outcome: Option<SessionOutcome>,
    ) -> (r: (SessionRun, RunAction))
        ensures
            r == reporting(
                SessionRun { in_clone, keep_workspaces, stage: Stage::Running },
                result,
                outcome,
            ),
    {
        let after: Cleanup = cleanup(in_clone, keep_workspaces, &outcome);
        let request: FinishRequest = finish_request(result, outcome);
        (
            SessionRun {
                in_clone,
                keep_workspaces,
                stage: Stage::Reporting { ran: true, cleanup: after },
            },
            RunAction::Report(request),
        )
    }

    /// Goes on after an event.
    pub fn step(self, event: RunEvent) -> (r: (SessionRun, RunAction))
        requires
            expected(self.stage, event),
        ensures
            r == run_next(self, event),
    {
        let in_clone: bool = self.in_clone;
        let keep_workspaces: bool = self.keep_workspaces;
        match (self.stage, event) {
            (Stage::Preparing, RunEvent::Prepared(prepared)) => match prepared {
                Ok(_) => (
                    SessionRun { in_clone, keep_workspaces, stage: Stage::Running },
                    RunAction::Run,
                ),
                Err(error) => if in_clone {
                    (
                        SessionRun {
                            in_clone,
                            keep_workspaces,
                            stage: Stage::Reporting {
                                ran: false,
                                cleanup: cleanup_unprepared(keep_workspaces),
                            },
                        },
                        RunAction::Report(preparation_failed(error)),
                    )
                } else {
                    (
                        SessionRun { in_clone, keep_workspaces, stage: Stage::Ended },
                        RunAction::End(Err(error)),
                    )
                },
            },
            (Stage::Running, RunEvent::RunEnded(result)) => if detects_outcome(in_clone, &result) {
                (
                    SessionRun { in_clone, keep_workspaces, stage: Stage::Detecting { result } },
                    RunAction::Detect,
                )
            } else {
                SessionRun::report(in_clone, keep_workspaces, result, None)
            },
            (Stage::Detecting { result }, RunEvent::Detected(outcome)) => SessionRun::report(
                in_clone,
                keep_workspaces,
                result,
                outcome,
            ),
            (Stage::Reporting { ran, cleanup }, RunEvent::Reported(reported)) => if ran
                || reported.is_ok() {
                (
                    SessionRun { in_clone, keep_workspaces, stage: Stage::Cleaning { reported } },
                    RunAction::CleanUp(cleanup),
                )
            } else {
                (
                    SessionRun { in_clone, keep_workspaces, stage: Stage::Ended },
                    RunAction::End(reported),
                )
            },
            (Stage::Cleaning { reported }, _) => (
                SessionRun { in_clone, keep_workspaces, stage: Stage::Ended },
                RunAction::End(reported),
            ),
            (stage, _) => (
                SessionRun { in_clone, keep_workspaces, stage },
                RunAction::End(Ok(())),
            ),
        }
    }
}

/// Once a session ran, its end is reported with a terminal status, then its
/// workspace is cleaned up whether the report went through or not, and the run
/// ends as the report did.
pub proof fn every_run_is_reported_and_cleaned_up(
    run: SessionRun,
    result: Result<RunOutcome, String>,
    detected: Option<SessionOutcome>,
    reported: Result<(), String>,
)
    requires
        run.stage is Running,
    ensures
        ({
            let (first, action) = run_next(run, RunEvent::RunEnded(result));
            let (reporter, report) = if action is Detect {
                run_next(first, RunEvent::Detected(detected))
            } else {
                (first, action)
            };
            let (cleaner, clean_up) = run_next(reporter, RunEvent::Reported(reported));
            let (ended, end) = run_next(cleaner, RunEvent::CleanedUp);
            let outcome = if action is Detect {
                detected
            } else {
                None
            };
            &&& report matches RunAction::Report(request) && terminal_status(request.status)
                && request.outcome == outcome
            &&& clean_up == RunAction::CleanUp(
                cleanup_for(run.in_clone, run.keep_workspaces || left_work(outcome)),
            )
            &&& ended.stage is Ended
            &&& end == RunAction::End(reported)
        }),
{
}

/// A clone that could not be prepared is reported as failed, then cleaned up:
/// it is removed, or kept without its token file. When the report fails too,
/// the run ends with that error.
pub proof fn failed_preparation_is_reported_and_cleaned_up(
    run: SessionRun,
    error: String,
    unreported: String,
)
    requires
        run.stage is Preparing,
        run.in_clone,
    ensures
        ({
            let (reporter, report) = run_next(run, RunEvent::Prepared(Err(error)));
            let (_, clean_up) = run_next(reporter, RunEvent::Reported(Ok(())));
            let (_, end) = run_next(reporter, RunEvent::Reported(Err(unreported)));
            &&& report matches RunAction::Report(request) && request.status == SessionStatus::Failed
                && request.error == Some(error) && request.outcome is None
            &&& clean_up == RunAction::CleanUp(cleanup_for(true, run.keep_workspaces))
            &&& end == RunAction::End(Err(unreported))
        }),
{
}

/// What the server says about a session.
#[derive(Debug, Clone, Copy, PartialEq, Eq, Structural)]
pub enum Lookup {
    /// The session's status.
    Found(SessionStatus),
    /// The server answered with this status.
    Refused(u16),
    /// The server could not be asked.
    Unreachable,
}

/// The session will never need its workspace again.
pub open spec fn is_orphaned(lookup: Lookup) -> bool {
    match lookup {
        Lookup::Found(status) => terminal_status(status),
        Lookup::Refused(status) => status == 404,
        Lookup::Unreachable => false,
    }
}

/// True when a leftover workspace may be removed: its session is terminal, or
/// unknown to the server (nothing will ever finish it; the directory is
/// garbage).
pub fn is_removable(lookup: Lookup) -> (r: bool)
    ensures
        r == is_orphaned(lookup),
{
    match lookup {
        Lookup::Found(status) => status.is_terminal(),
        Lookup::Refused(status) => status == 404,
        Lookup::Unreachable => false,
    }
}

/// True when a directory entry is a leftover workspace to ask the server
/// about: a directory that is not marked as kept.
pub fn is_leftover(is_dir: bool, marked_kept: bool) -> (r: bool)
    ensures
        r == (is_dir && !marked_kept),
{
    is_dir && !marked_kept
}

/// The server's answer to a heartbeat.
#[derive(Debug, Clone, Copy, PartialEq, Eq, Structural)]
pub enum HeartbeatReply {
    /// The lease was extended.
    Extended { cancel_requested: bool },
    /// The server answered with this status.
    Refused(u16),
    /// The server could not be reached.
    Unreachable,
}

/// What a heartbeat leads to.
#[derive(Debug, Clone, Copy, PartialEq, Eq, Structural)]
pub struct HeartbeatStep {
    /// The run is to be cancelled.
    pub cancel: bool,
    /// No further heartbeat is sent.
    pub stop: bool,
}

/// A 4xx status.
pub open spec fn client_error(status: u16) -> bool {
    400 <= status < 500
}

/// Goes on after a heartbeat: a requested cancellation cancels the run, and a
/// refusal means the session is no longer this host's (lease expired, or
/// finished elsewhere). Anything else may pass.
pub fn after_heartbeat(reply: HeartbeatReply) -> (r: HeartbeatStep)
    ensures
        match reply {
            HeartbeatReply::Extended { cancel_requested } => r.cancel == cancel_requested
                && !r.stop,
            HeartbeatReply::Refused(status) => r.cancel == client_error(status) && r.stop
                == client_error(status),
            HeartbeatReply::Unreachable => !r.cancel && !r.stop,
        },
{
    match reply {
        HeartbeatReply::Extended { cancel_requested } => HeartbeatStep {
            cancel: cancel_requested,
            stop: false,
        },
        HeartbeatReply::Refused(status) => {
            let lost: bool = 400 <= status && status < 500;
            HeartbeatStep { cancel: lost, stop: lost }
        },
        HeartbeatReply::Unreachable => HeartbeatStep { cancel: false, stop: false },
    }
}

// --- what callers see -----------------------------------------------------------

/// A host offers every harness it knows, in order, on its own disk or in a
/// clone; what it claims is run by the echo runtime when its harness is `echo`.
pub proof fn hosts_offer_all_they_know(
    known: &[Harness],
    r: ClaimRequest,
    i: int,
    harness: &str,
    echo: bool,
)
    requires
        call_ensures(claim_request, (known,), r),
        call_ensures(runs_echo, (harness,), echo),
    ensures
        r.harnesses@.len() == known@.len(),
        0 <= i < known@.len() ==> r.harnesses@[i]@ == known@[i].name@,
        r.environment_types@.len() == 2,
        r.environment_types@[0]@ == "self_hosted"@,
        r.environment_types@[1]@ == "github_repo"@,
        echo <==> harness@ == "echo"@,
{
    let offered = string_views(r.harnesses@);
    let kinds = string_views(r.environment_types@);
    assert(offered.len() == r.harnesses@.len());
    assert(kinds.len() == r.environment_types@.len());
    assert(kinds[0] == r.environment_types@[0]@);
    assert(kinds[1] == r.environment_types@[1]@);
    if 0 <= i < known@.len() {
        assert(offered[i] == r.harnesses@[i]@);
    }
}

/// An agent in a clone is told the repository, the branch it is on and how to
/// hand its work in, and then its whole task.
pub proof fn agents_are_told_their_clone_and_task(
    repo: &str,
    base: &str,
    input: &str,
    r: String,
    environment: &Environment,
    clone: Result<Option<&str>, String>,
)
    requires
        call_ensures(repo_input, (repo, base, input), r),
        call_ensures(repo_to_clone, (environment,), clone),
    ensures
        r@ == "You are working in a clone of "@ + repo@ + " (currently on branch "@ + base@
            + "). Complete the task below. When done: create a descriptively named branch, commit your work with clear messages, push it, and open a pull request with `gh pr create`. Report the PR URL in your final message.\n\n"@
            + input@,
        environment.kind@ != "github_repo"@ ==> (clone matches Ok(None)),
        environment.kind@ == "github_repo"@ ==> match environment.repo {
            Some(name) => clone matches Ok(Some(wanted)) && wanted@ == name@,
            None => clone matches Err(e) && e@ == "github_repo session has no environment.repo"@,
        },
{
}

/// A run prepares its workspace first, and works in a clone exactly when its
/// environment is a repository.
pub proof fn runs_begin_with_their_workspace(
    environment: &Environment,
    keep_workspaces: bool,
    begun: (SessionRun, RunAction),
)
    requires
        call_ensures(SessionRun::begin, (environment, keep_workspaces), begun),
    ensures
        begun.1 is Prepare,
        begun.0.stage is Preparing,
        begun.0.in_clone <==> environment.kind@ == "github_repo"@,
        begun.0.keep_workspaces == keep_workspaces,
{
}

/// What a run does next: a prepared workspace is run in, a run that did not
/// fail in a clone has its outcome detected, and any other is reported at once.
/// A workspace that is not a clone and cannot be made ends the run.
pub proof fn runs_take_their_steps(run: SessionRun, event: RunEvent, r: (SessionRun, RunAction))
    requires
        call_ensures(SessionRun::step, (run, event), r),
        expected(run.stage, event),
    ensures
        r.0.in_clone == run.in_clone,
        r.0.keep_workspaces == run.keep_workspaces,
        event matches RunEvent::Prepared(Ok(_)) ==> r.1 is Run && r.0.stage is Running,
        event matches RunEvent::Prepared(Err(e)) ==> (!run.in_clone ==> r.1 == RunAction::End(Err(e))
            && r.0.stage is Ended),
        event matches RunEvent::RunEnded(result) ==> (r.1 is Detect <==> run.in_clone && result
            is Ok),
        event matches RunEvent::RunEnded(result) ==> (r.1 is Detect ==> r.0.stage
            == (Stage::Detecting { result })),
        event is RunEnded ==> r.1 is Detect || r.1 is Report,
        event is Detected ==> r.1 is Report,
        event is CleanedUp ==> r.0.stage is Ended && r.1 is End,
{
}

/// A session is reported as its run ended: completed for the reason the agent
/// gave, cancelled, or failed with the error, each with the outcome that was
/// detected; a clone that could not be made is reported as failed.
pub proof fn reports_tell_how_the_run_ended(
    run: SessionRun,
    event: RunEvent,
    r: (SessionRun, RunAction),
    result: Result<RunOutcome, String>,
    outcome: Option<SessionOutcome>,
)
    requires
        call_ensures(SessionRun::step, (run, event), r),
        expected(run.stage, event),
        ({
            ||| event == RunEvent::RunEnded(result) && outcome is None && !(run.in_clone && result
                is Ok)
            ||| event == RunEvent::Detected(outcome) && run.stage == (Stage::Detecting { result })
            ||| run.in_clone && outcome is None && (result matches Err(e) && event
                == RunEvent::Prepared(Err(e)))
        }),
    ensures
        r.1 matches RunAction::Report(report) && report.outcome == outcome && match result {
            Ok(RunOutcome::Completed { stop_reason }) => report.status == SessionStatus::Completed
                && report.stop_reason == Some(stop_reason) && report.error is None,
            Ok(RunOutcome::Cancelled) => report.status == SessionStatus::Cancelled
                && report.stop_reason is None && report.error is None,
            Err(e) => report.status == SessionStatus::Failed && report.stop_reason is None
                && report.error == Some(e),
        },
{
}

/// After its report a run cleans its workspace up, even when the report
/// failed; only a run whose clone was never made, and whose report failed too,
/// ends at once. Either way it ends as the report did.
pub proof fn reported_runs_are_cleaned_up(
    run: SessionRun,
    reported: Result<(), String>,
    r: (SessionRun, RunAction),
    end: (SessionRun, RunAction),
)
    requires
        run.stage is Reporting,
        call_ensures(SessionRun::step, (run, RunEvent::Reported(reported)), r),
        call_ensures(SessionRun::step, (r.0, RunEvent::CleanedUp), end),
    ensures
        run.stage matches Stage::Reporting { ran, cleanup } ==> if ran || reported is Ok {
            r.1 == RunAction::CleanUp(cleanup) && end.1 == RunAction::End(reported)
        } else {
            r.1 == RunAction::End(reported) && r.0.stage is Ended
        },
{
}

/// What happens to a workspace, by who may still need it: a clone is removed
/// unless the host keeps workspaces or the clone holds work that is nowhere
/// else; a clone that stays loses its token, and whatever is kept is marked.
pub proof fn workspaces_are_removed_unless_needed(
    in_clone: bool,
    keep_workspaces: bool,
    outcome: Option<SessionOutcome>,
    r: Cleanup,
    unprepared: Cleanup,
)
    requires
        call_ensures(cleanup, (in_clone, keep_workspaces, &outcome), r),
        call_ensures(cleanup_unprepared, (keep_workspaces,), unprepared),
    ensures
        ({
            let needed = keep_workspaces || (outcome matches Some(o) && o.kind@
                == "uncommitted_changes"@);
            &&& r.remove <==> in_clone && !needed
            &&& r.remove_token <==> in_clone && needed
            &&& r.mark_kept <==> needed
        }),
        unprepared.remove <==> !keep_workspaces,
        unprepared.remove_token <==> keep_workspaces,
        unprepared.mark_kept <==> keep_workspaces,
{
}

/// A run that reports has settled what happens to its workspace by the same
/// rule.
pub proof fn runs_plan_their_clean_up(
    run: SessionRun,
    event: RunEvent,
    r: (SessionRun, RunAction),
    outcome: Option<SessionOutcome>,
    planned: Cleanup,
)
    requires
        call_ensures(SessionRun::step, (run, event), r),
        expected(run.stage, event),
        r.1 is Report,
        outcome == (match event {
            RunEvent::Detected(found) => found,
            _ => None,
        }),
        call_ensures(cleanup, (run.in_clone, run.keep_workspaces, &outcome), planned),
    ensures
        r.0.stage matches Stage::Reporting { ran, cleanup } && cleanup == planned && (ran <==> !(
        event is Prepared)),
{
}

/// A leftover workspace is removed when its session has completed, failed or
/// was cancelled, or when the server does not know it; only a directory that is
/// not marked is looked at.
pub proof fn leftovers_of_ended_sessions_are_removed(
    lookup: Lookup,
    removable: bool,
    is_dir: bool,
    marked: bool,
    leftover: bool,
)
    requires
        call_ensures(is_removable, (lookup,), removable),
        call_ensures(is_leftover, (is_dir, marked), leftover),
    ensures
        removable <==> match lookup {
            Lookup::Found(status) => status is Completed || status is Failed || status
                is Cancelled,
            Lookup::Refused(status) => status == 404,
            Lookup::Unreachable => false,
        },
        leftover <==> is_dir && !marked,
{
}

/// A run is cancelled when the server asks for it or says, with a 4xx, that
/// the session is no longer this host's; then the host falls silent. Anything
/// else is waited out.
pub proof fn lost_sessions_are_cancelled(reply: HeartbeatReply, r: HeartbeatStep)
    requires
        call_ensures(after_heartbeat, (reply,), r),
    ensures
        match reply {
            HeartbeatReply::Extended { cancel_requested } => r.cancel == cancel_requested
                && !r.stop,
            HeartbeatReply::Refused(status) => (r.cancel <==> 400 <= status <= 499) && (r.stop
                <==> 400 <= status <= 499),
            HeartbeatReply::Unreachable => !r.cancel && !r.stop,
        },
{
}

/// A session that ran is reported as its run ended and with its outcome; one
/// that was never prepared is reported as failed, and only a run in a clone
/// that did not fail has an outcome to detect.
pub proof fn ends_are_reported(
    result: Result<RunOutcome, String>,
    outcome: Option<SessionOutcome>,
    ran: FinishRequest,
    error: String,
    unprepared: FinishRequest,
    in_clone: bool,
    detects: bool,
)
    requires
        call_ensures(finish_request, (result, outcome), ran),
        call_ensures(preparation_failed, (error,), unprepared),
        call_ensures(detects_outcome, (in_clone, &result), detects),
    ensures
        ran.outcome == outcome,
        result matches Ok(RunOutcome::Completed { stop_reason }) ==> ran.status is Completed
            && ran.stop_reason == Some(stop_reason) && ran.error is None,
        result matches Ok(RunOutcome::Cancelled) ==> ran.status is Cancelled && ran.stop_reason
            is None && ran.error is None,
        result matches Err(e) ==> ran.status is Failed && ran.stop_reason is None && ran.error
            == Some(e),
        unprepared.status is Failed && unprepared.error == Some(error) && unprepared.stop_reason
            is None && unprepared.outcome is None,
        detects <==> in_clone && result is Ok,
{
}

/// A host shows that it is alive three times a minute, and renews a credential
/// every forty-five minutes, before the hour for which it is good is over.
pub proof fn hosts_stay_alive()
    ensures
        3 * HEARTBEAT_SECS == 60,
        TOKEN_REFRESH_SECS == 45 * 60,
{
}

} // verus!
