use vise::acp::{
    answer_permission, invalid_command, prompt_text, redact, resolve_command, turn_begin, turn_step,
    AcpProcessRuntime, AgentStop, Harness, TurnAction, TurnEvent, TurnStage,
};
use vise::json::parse_json;
use vise::model::{Environment, SessionOutcome, SessionStatus};
use vise::repo::{
    clone_args, clone_url, detect_outcome, find_open_pr, helper_config, inspect, is_pushed,
    open_pulls_url, prepared_repo, reported, settle, Inspection, Outcome, PreparedRepo,
};
use vise::runtime::{chunk, EchoRuntime, RunOutcome};
use vise::session_run::{
    after_heartbeat, claim_request, cleanup, cleanup_unprepared, finish_request, is_leftover,
    is_removable, preparation_failed, repo_input, repo_to_clone, runs_echo, Cleanup, HeartbeatReply,
    HeartbeatStep, Lookup, RunAction, RunEvent, SessionRun,
};

fn harnesses() -> Vec<Harness> {
    vec![
        Harness::parse("robot=npx -y robot@latest --flag=1").unwrap(),
        Harness::parse("robot=shadowed").unwrap(),
        Harness::parse("second=run second").unwrap(),
    ]
}

#[test]
fn harness_entries_name_a_command() {
    assert_eq!(harnesses()[0].name, "robot");
    assert_eq!(harnesses()[0].command, "npx -y robot@latest --flag=1");
    assert!(Harness::parse("robot").is_none());
    assert_eq!(Harness::parse("=").unwrap().command, "");
}

#[test]
fn commands_are_resolved_on_the_host() {
    assert_eq!(
        resolve_command("robot", &harnesses(), None).unwrap(),
        "npx -y robot@latest --flag=1"
    );
    assert_eq!(
        resolve_command("second", &harnesses(), Some("tok")).unwrap(),
        "env GH_TOKEN=tok run second"
    );
    assert_eq!(
        resolve_command("other", &harnesses(), None).unwrap_err(),
        "unknown harness: other"
    );
    let request = claim_request(&harnesses()[1..]);
    assert_eq!(request.harnesses, vec!["robot", "second"]);
    assert_eq!(request.environment_types, vec!["self_hosted", "github_repo"]);
}

#[test]
fn errors_do_not_show_the_token() {
    assert_eq!(
        redact("a tok b tok".into(), Some("tok")),
        "a [redacted] b [redacted]"
    );
    assert_eq!(redact("a tok".into(), Some("")), "a tok");
    assert_eq!(redact("a tok".into(), None), "a tok");
    assert_eq!(redact("xyx".into(), Some("x")), "[redacted]y[redacted]");
    assert_eq!(
        invalid_command("robot", "bad: tok".into(), Some("tok")),
        "invalid agent command for harness robot: bad: [redacted]"
    );
}

#[test]
fn a_turn_goes_from_initialization_to_the_answer() {
    let (stage, action) = turn_begin();
    assert!(matches!(action, TurnAction::Initialize));
    let (stage, action) = turn_step(stage, TurnEvent::Initialized(Ok(())));
    assert!(matches!(action, TurnAction::OpenSession));
    let (stage, action) = turn_step(stage, TurnEvent::SessionOpened(Ok(())));
    assert!(matches!(action, TurnAction::Prompt));
    let stop = AgentStop::Reason("end_turn".into());
    let (stage, action) = turn_step(stage, TurnEvent::Responded(Ok(stop)));
    assert_eq!(stage, TurnStage::Ended);
    match action {
        TurnAction::Close(Ok(RunOutcome::Completed { stop_reason })) => {
            assert_eq!(stop_reason, "end_turn")
        }
        other => panic!("{other:?}"),
    }
}

#[test]
fn errors_end_a_turn_until_it_is_cancelled() {
    for (stage, event) in [
        (TurnStage::Initializing, TurnEvent::Initialized(Err("x".into()))),
        (TurnStage::OpeningSession, TurnEvent::SessionOpened(Err("x".into()))),
        (TurnStage::Prompting, TurnEvent::Responded(Err("x".into()))),
    ] {
        let (_, action) = turn_step(stage, event);
        assert!(matches!(action, TurnAction::Close(Err(error)) if error == "x"));
    }
    let (stage, action) = turn_step(TurnStage::Prompting, TurnEvent::CancelRequested);
    assert_eq!(stage, TurnStage::Cancelling);
    assert!(matches!(action, TurnAction::Cancel));
    for event in [
        TurnEvent::GraceElapsed,
        TurnEvent::Responded(Err("x".into())),
        TurnEvent::Responded(Ok(AgentStop::Cancelled)),
    ] {
        let (_, action) = turn_step(stage, event);
        assert!(matches!(action, TurnAction::Close(Ok(RunOutcome::Cancelled))));
    }
}

#[test]
fn what_a_run_comes_to() {
    let runtime = AcpProcessRuntime;
    // A connection error after the turn finished does not undo the turn.
    assert!(matches!(
        runtime.outcome(Some(RunOutcome::Cancelled), Some("broken pipe".into()), None),
        Ok(RunOutcome::Cancelled)
    ));
    assert_eq!(
        runtime.outcome(None, Some("died: tok".into()), Some("tok")).unwrap_err(),
        "acp agent failed: died: [redacted]"
    );
    assert_eq!(
        runtime.outcome(None, None, None).unwrap_err(),
        "acp connection closed before the prompt turn finished"
    );
}

#[test]
fn prompts_put_instructions_first() {
    assert_eq!(prompt_text("", "do it"), "do it");
    assert_eq!(prompt_text("be brief", "do it"), "be brief\n\ndo it");
}

#[test]
fn permissions_are_approved_with_the_first_option() {
    let request = || parse_json(r#"{"sessionId":"s"}"#).unwrap();
    let answer = answer_permission(&["allow".to_string(), "deny".to_string()], request());
    assert_eq!(answer.selected.as_deref(), Some("allow"));
    assert_eq!(
        answer.event,
        parse_json(r#"{"permissionRequest":{"sessionId":"s"},"autoApproved":"allow"}"#).unwrap()
    );
    let answer = answer_permission(&[], request());
    assert_eq!(answer.selected, None);
    assert_eq!(
        answer.event,
        parse_json(r#"{"permissionRequest":{"sessionId":"s"},"autoApproved":null}"#).unwrap()
    );
}

#[test]
fn the_echo_runtime_echoes() {
    let chunks = EchoRuntime.chunks("hello");
    assert_eq!(chunks, vec![chunk("Echo: "), chunk("hello"), chunk("\n")]);
    assert_eq!(
        chunks[1],
        parse_json(
            r#"{"sessionUpdate":"agent_message_chunk","content":{"type":"text","text":"hello"}}"#
        )
        .unwrap()
    );
    assert!(EchoRuntime.after_chunk(1, false).is_none());
    assert!(matches!(EchoRuntime.after_chunk(1, true), Some(RunOutcome::Cancelled)));
    assert!(matches!(
        EchoRuntime.after_chunk(3, false),
        Some(RunOutcome::Completed { stop_reason }) if stop_reason == "end_turn"
    ));
}

// --- the clone ---------------------------------------------------------------

fn prepared() -> PreparedRepo {
    prepared_repo("/w/ses_1", "c0ffee\n", "main\n")
}

#[test]
fn prepares_workspace_from_clone_url() {
    let p = prepared();
    assert_eq!(p.repo_dir, "/w/ses_1/repo");
    assert_eq!(p.token_file, "/w/ses_1/github-token");
    assert_eq!((p.base_commit.as_str(), p.base_branch.as_str()), ("c0ffee", "main"));
    let url = clone_url("acme/widgets");
    assert_eq!(url, "https://github.com/acme/widgets.git");
    let args = clone_args(&url, Some("main"), &p.repo_dir, &p.token_file);
    assert_eq!(
        args,
        vec![
            "clone",
            "-c",
            helper_config("/w/ses_1/github-token").as_str(),
            "--depth",
            "50",
            "--branch",
            "main",
            "https://github.com/acme/widgets.git",
            "/w/ses_1/repo"
        ]
    );
    assert!(args[2].starts_with("credential.helper=!f() {"));
    assert!(args[2].contains("$(cat '/w/ses_1/github-token')"));
    assert_eq!(clone_args(&url, None, "d", "t").len(), 7);
}

#[test]
fn detects_no_changes() {
    let outcome = detect_outcome(&prepared(), "main\n", "c0ffee\n", "", "", None);
    assert_eq!(outcome.kind, "no_changes");
    assert_eq!(outcome.branch, None);
}

#[test]
fn detects_uncommitted_changes() {
    let outcome = detect_outcome(&prepared(), "main\n", "c0ffee\n", "?? dirty.txt\n", "", None);
    assert_eq!(outcome.kind, "uncommitted_changes");
}

#[test]
fn detects_pushed_branch_without_pr() {
    let remote = "beef\trefs/heads/vise/test\n";
    let outcome = detect_outcome(&prepared(), "vise/test\n", "beef\n", "\n", remote, None);
    assert_eq!(outcome.kind, "pushed_no_pr");
    assert_eq!(outcome.branch.as_deref(), Some("vise/test"));
    let url = Some("https://github.com/acme/widgets/pull/1".to_string());
    let outcome = detect_outcome(&prepared(), "vise/test\n", "beef\n", "\n", remote, url.clone());
    assert_eq!(outcome.kind, "pr_opened");
    assert_eq!(outcome.pr_url, url);
}

#[test]
fn detects_committed_but_unpushed_as_uncommitted_kind() {
    for remote in ["", "c0ffee\trefs/heads/vise/test\n"] {
        let outcome = detect_outcome(&prepared(), "vise/test\n", "beef\n", "", remote, None);
        // local-only work: without a push there is nothing on GitHub
        assert_eq!(outcome.kind, "uncommitted_changes");
        assert_eq!(outcome.branch.as_deref(), Some("vise/test"));
    }
}

#[test]
fn detects_unpushed_base_branch_commits_as_uncommitted_kind() {
    let remote = "c0ffee\trefs/heads/main\n";
    let outcome = detect_outcome(&prepared(), "main\n", "beef\n", "", remote, None);
    assert_eq!(outcome.kind, "uncommitted_changes");
    assert_eq!(outcome.branch.as_deref(), Some("main"));
}

#[test]
fn the_remote_is_asked_only_about_committed_work() {
    assert!(matches!(
        inspect(&prepared(), "main", "c0ffee", ""),
        Inspection::Settled(outcome) if outcome.kind == "no_changes"
    ));
    assert!(matches!(
        inspect(&prepared(), " x \n", "beef\n", " \n"),
        Inspection::AskRemote { branch, head } if branch == "x" && head == "beef"
    ));
    assert!(is_pushed("beef", "  beef refs/heads/x"));
    assert!(!is_pushed("beef", "beef1 refs/heads/x"));
    assert!(!is_pushed("", ""));
    assert_eq!(settle("x".into(), false, Some("u".into())).kind, "uncommitted_changes");
    let outcome = reported(Outcome {
        kind: "k".into(),
        pr_url: Some("u".into()),
        branch: None,
    });
    assert_eq!((outcome.kind.as_str(), outcome.pr_url.as_deref()), ("k", Some("u")));
}

#[test]
fn the_first_open_pull_request_counts() {
    assert_eq!(
        open_pulls_url("acme/widgets", "vise/x"),
        "https://api.github.com/repos/acme/widgets/pulls?head=acme:vise/x&state=open"
    );
    let pulls = parse_json(r#"[{"html_url":"one"},{"html_url":"two"}]"#).unwrap();
    assert_eq!(find_open_pr(&pulls).as_deref(), Some("one"));
    for none in ["[]", "{}", r#"[{"html_url":1}]"#, "[1]"] {
        assert_eq!(find_open_pr(&parse_json(none).unwrap()), None);
    }
}

// --- the run -------------------------------------------------------------------

fn environment(kind: &str, repo: Option<&str>) -> Environment {
    Environment {
        kind: kind.into(),
        repo: repo.map(str::to_string),
        base_branch: None,
    }
}

fn outcome(kind: &str) -> Option<SessionOutcome> {
    Some(SessionOutcome {
        kind: kind.into(),
        pr_url: None,
        branch: None,
    })
}

#[test]
fn a_run_is_reported_and_cleaned_up() {
    let (run, action) = SessionRun::begin(&environment("github_repo", Some("a/b")), false);
    assert!(matches!(action, RunAction::Prepare));
    let (run, action) = run.step(RunEvent::Prepared(Ok(())));
    assert!(matches!(action, RunAction::Run));
    let (run, action) = run.step(RunEvent::RunEnded(Ok(RunOutcome::Cancelled)));
    assert!(matches!(action, RunAction::Detect));
    let (run, action) = run.step(RunEvent::Detected(outcome("uncommitted_changes")));
    match action {
        RunAction::Report(request) => {
            assert_eq!(request.status, SessionStatus::Cancelled);
            assert_eq!(request.outcome.unwrap().kind, "uncommitted_changes");
        }
        other => panic!("{other:?}"),
    }
    // Cleaned up though the report failed, and kept for the work in it.
    let (run, action) = run.step(RunEvent::Reported(Err("offline".into())));
    match action {
        RunAction::CleanUp(cleanup) => assert_eq!(
            cleanup,
            Cleanup {
                remove: false,
                remove_token: true,
                mark_kept: true
            }
        ),
        other => panic!("{other:?}"),
    }
    let (_, action) = run.step(RunEvent::CleanedUp);
    assert!(matches!(action, RunAction::End(Err(error)) if error == "offline"));
}

#[test]
fn a_failed_run_skips_detection() {
    let (run, _) = SessionRun::begin(&environment("github_repo", Some("a/b")), false);
    let (run, _) = run.step(RunEvent::Prepared(Ok(())));
    let (_, action) = run.step(RunEvent::RunEnded(Err("crashed".into())));
    match action {
        RunAction::Report(request) => {
            assert_eq!(request.status, SessionStatus::Failed);
            assert_eq!(request.error.as_deref(), Some("crashed"));
            assert!(request.outcome.is_none());
        }
        other => panic!("{other:?}"),
    }
}

#[test]
fn a_failed_preparation_is_reported_for_clones_only() {
    let (run, _) = SessionRun::begin(&environment("github_repo", Some("a/b")), true);
    let (run, action) = run.step(RunEvent::Prepared(Err("no token".into())));
    assert!(matches!(action, RunAction::Report(request) if request.error.as_deref() == Some("no token")));
    let (_, action) = run.step(RunEvent::Reported(Ok(())));
    assert!(matches!(action, RunAction::CleanUp(cleanup) if cleanup == cleanup_unprepared(true)));

    let (run, _) = SessionRun::begin(&environment("self_hosted", None), false);
    let (_, action) = run.step(RunEvent::Prepared(Err("disk full".into())));
    assert!(matches!(action, RunAction::End(Err(error)) if error == "disk full"));
}

#[test]
fn clones_are_removed_unless_kept() {
    let gone = cleanup(true, false, &outcome("pr_opened"));
    assert_eq!((gone.remove, gone.remove_token, gone.mark_kept), (true, false, false));
    let kept = cleanup(true, true, &None);
    assert_eq!((kept.remove, kept.remove_token, kept.mark_kept), (false, true, true));
    let plain = cleanup(false, false, &None);
    assert_eq!((plain.remove, plain.remove_token, plain.mark_kept), (false, false, false));
    assert!(cleanup_unprepared(false).remove);
    // A clone that failed half way is kept without its token.
    let half = cleanup_unprepared(true);
    assert_eq!((half.remove, half.remove_token, half.mark_kept), (false, true, true));
}

#[test]
fn reports_of_ended_runs() {
    let done = finish_request(
        Ok(RunOutcome::Completed {
            stop_reason: "end_turn".into(),
        }),
        None,
    );
    assert_eq!(done.status, SessionStatus::Completed);
    assert_eq!(done.stop_reason.as_deref(), Some("end_turn"));
    assert_eq!(preparation_failed("x".into()).status, SessionStatus::Failed);
}

#[test]
fn what_a_session_needs() {
    assert!(runs_echo("echo") && !runs_echo("robot"));
    assert_eq!(repo_to_clone(&environment("self_hosted", Some("a/b"))), Ok(None));
    assert_eq!(repo_to_clone(&environment("github_repo", Some("a/b"))), Ok(Some("a/b")));
    assert_eq!(
        repo_to_clone(&environment("github_repo", None)).unwrap_err(),
        "github_repo session has no environment.repo"
    );
    let input = repo_input("a/b", "main", "Fix it.");
    assert!(input.starts_with("You are working in a clone of a/b (currently on branch main). "));
    assert!(input.ends_with("final message.\n\nFix it."));
}

#[test]
fn leftover_workspaces() {
    assert!(is_leftover(true, false));
    assert!(!is_leftover(true, true));
    assert!(!is_leftover(false, false));
    assert!(is_removable(Lookup::Found(SessionStatus::Failed)));
    assert!(!is_removable(Lookup::Found(SessionStatus::Running)));
    assert!(is_removable(Lookup::Refused(404)));
    assert!(!is_removable(Lookup::Refused(500)));
    assert!(!is_removable(Lookup::Unreachable));
}

#[test]
fn heartbeats_notice_a_lost_lease() {
    let step = |cancel: bool, stop: bool| HeartbeatStep { cancel, stop };
    assert_eq!(
        after_heartbeat(HeartbeatReply::Extended {
            cancel_requested: true
        }),
        step(true, false)
    );
    assert_eq!(after_heartbeat(HeartbeatReply::Refused(409)), step(true, true));
    assert_eq!(after_heartbeat(HeartbeatReply::Refused(503)), step(false, false));
    assert_eq!(after_heartbeat(HeartbeatReply::Unreachable), step(false, false));
}
