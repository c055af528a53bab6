use vise::json::parse_json;
use vise::model::{
    Agent, ChecksState, Environment, PrState, PrStatus, Session, SessionOutcome, SessionStatus,
    WorkspaceId,
};
use vise::render::{
    environment_for, parse_sse_event, pr_state_columns, render_payload, render_pr_summary,
    render_session_table, render_sse_event, render_watch_end, stream_url, StreamBuffer,
};
use vise::time::Timestamp;

fn rendered(payload: &str) -> String {
    render_payload(&parse_json(payload).unwrap())
}

fn session() -> Session {
    Session {
        id: "ses_1".into(),
        workspace_id: WorkspaceId::default(),
        agent: Agent {
            harness: "echo".into(),
            model: String::new(),
            instructions: String::new(),
            mcp_servers: vec![],
        },
        environment: Environment {
            kind: "self_hosted".into(),
            repo: None,
            base_branch: None,
        },
        input: "x".into(),
        status: SessionStatus::Completed,
        host_id: None,
        lease_expires_at: None,
        started_at: None,
        finished_at: None,
        stop_reason: None,
        error: None,
        outcome: None,
        pr_status: None,
        parent_session_id: None,
        cancel_requested: false,
        created_at: Timestamp { secs: 0, nanos: 0 },
        updated_at: Timestamp { secs: 0, nanos: 0 },
    }
}

fn outcome(kind: &str, pr_url: Option<&str>, branch: Option<&str>) -> Option<SessionOutcome> {
    Some(SessionOutcome {
        kind: kind.into(),
        pr_url: pr_url.map(str::to_string),
        branch: branch.map(str::to_string),
    })
}

fn approved() -> Option<PrStatus> {
    Some(PrStatus {
        state: PrState::Approved,
        checks: Some(ChecksState::Passing),
        last_synced_at: Timestamp {
            secs: 86_400,
            nanos: 5,
        },
    })
}

#[test]
fn payloads_are_rendered_by_kind() {
    assert_eq!(
        rendered(r#"{"update":{"sessionUpdate":"agent_message_chunk","content":{"text":"hi"}}}"#),
        "hi"
    );
    assert_eq!(
        rendered(r#"{"sessionUpdate":"agent_message_chunk","content":{"text":"flat"}}"#),
        "flat"
    );
    assert_eq!(
        rendered(r#"{"update":{"sessionUpdate":"tool_call","title":"Run tests"}}"#),
        "\n[tool] Run tests\n"
    );
    assert_eq!(rendered(r#"{"sessionUpdate":"tool_call"}"#), "\n[tool] tool call\n");
    for quiet in ["agent_thought_chunk", "tool_call_update", "plan"] {
        assert_eq!(rendered(&format!(r#"{{"sessionUpdate":"{quiet}"}}"#)), "");
    }
    assert_eq!(rendered(r#"{"sessionUpdate":"usage_update"}"#), "\n[usage_update]\n");
    assert_eq!(
        rendered(r#"{"permissionRequest":{},"autoApproved":"allow"}"#),
        "\n[permission auto-approved]\n"
    );
    assert_eq!(rendered("{}"), "");
    assert_eq!(rendered("3"), "");
}

#[test]
fn transitions_are_rendered() {
    assert_eq!(
        rendered(r#"{"type":"pr_state_changed","from":null,"to":"approved"}"#),
        "\n[pr] unknown -> approved\n"
    );
    assert_eq!(
        rendered(r#"{"type":"checks_state_changed","from":"pending","to":null}"#),
        "\n[checks] pending -> none\n"
    );
    assert_eq!(rendered(r#"{"type":"other"}"#), "\n[other]\n");
}

#[test]
fn stream_events_have_a_name_and_data() {
    let event = parse_sse_event(": ping\nid: 3\nevent: done \ndata: com\ndata: pleted\n");
    assert_eq!((event.name.as_str(), event.data.as_str()), ("done", "completed"));
    assert_eq!(parse_sse_event("data: x").name, "message");
    assert_eq!(render_sse_event("event: done\ndata: failed"), "\n── session failed ──\n");
    assert_eq!(render_sse_event("event: done\ndata: merged"), "\n── pr merged ──\n");
    assert_eq!(
        render_sse_event(r#"data: {"seq":1,"payload":{"type":"other"}}"#),
        "\n[other]\n"
    );
    assert_eq!(render_sse_event("data: {"), "");
    assert_eq!(render_sse_event(": keep-alive"), "");
}

#[test]
fn cutting_a_stream_does_not_matter() {
    let stream = "data: a\n\ndata: b\n\ndata: c";
    let mut whole = StreamBuffer::new();
    let expected = whole.feed(stream.as_bytes());
    assert_eq!(expected, vec!["data: a", "data: b"]);
    for cut in 0..stream.len() {
        let mut buffer = StreamBuffer::new();
        let mut events = buffer.feed(&stream.as_bytes()[..cut]);
        events.extend(buffer.feed(&stream.as_bytes()[cut..]));
        assert_eq!(events, expected, "{cut}");
        assert_eq!(buffer.feed(b"\n\n"), vec!["data: c"]);
    }
    assert_eq!(StreamBuffer::new().feed(b"a\xff\n\n"), vec!["a\u{fffd}"]);
}

#[test]
fn the_session_table_is_aligned() {
    let mut followed = session();
    followed.outcome = outcome("pr_opened", None, None);
    followed.pr_status = approved();
    assert_eq!(pr_state_columns(&followed), ("approved", "passing"));
    assert_eq!(pr_state_columns(&session()), ("-", "-"));
    let expected = format!(
        "{:<32} {:<10} {:<20} {:<18} {:<8} CREATED\n\
         {:<32} {:<10} {:<20} {:<18} {:<8} 1970-01-01T00:00:00Z\n\
         {:<32} {:<10} {:<20} {:<18} {:<8} 1970-01-01T00:00:00Z\n",
        "ID", "STATUS", "OUTCOME", "PR", "CHECKS",
        "ses_1", "completed", "pr_opened", "approved", "passing",
        "ses_1", "completed", "-", "-", "-",
    );
    assert_eq!(render_session_table(&[followed, session()]), expected);
}

#[test]
fn the_end_of_a_watch_is_summed_up() {
    let mut watched = session();
    assert_eq!(render_watch_end(&watched), "\n");
    watched.outcome = outcome("pr_opened", Some("https://x/1"), None);
    watched.pr_status = approved();
    watched.parent_session_id = Some("ses_0".into());
    assert_eq!(
        render_pr_summary(&watched),
        "PR https://x/1: approved, checks passing (synced 1970-01-02T00:00:00Z)\n"
    );
    assert_eq!(
        render_watch_end(&watched),
        "\nPR: https://x/1\nPR https://x/1: approved, checks passing (synced 1970-01-02T00:00:00Z)\n\
         PR tracking continues on the root session (parent: ses_0)\n"
    );
    for (kind, pr_url, branch, line) in [
        ("pr_updated", Some("u"), None, "PR updated: u\n"),
        ("pushed_no_pr", None, Some("b"), "pushed branch b (no PR)\n"),
        ("no_changes", None, None, "no changes made\n"),
        (
            "uncommitted_changes",
            None,
            None,
            "warning: agent left uncommitted work; workspace kept on host\n",
        ),
        ("pr_opened", None, None, ""),
        ("other", None, None, ""),
    ] {
        let mut ended = session();
        ended.outcome = outcome(kind, pr_url, branch);
        assert_eq!(render_watch_end(&ended), format!("\n{line}"), "{kind}");
    }
    let mut bare = session();
    bare.pr_status = approved();
    assert!(render_pr_summary(&bare).starts_with("PR -: approved"));
}

#[test]
fn small_texts_of_the_cli() {
    assert_eq!(
        stream_url("http://s", "ses_1", -1),
        "http://s/sessions/ses_1/events/stream?after_seq=-1"
    );
    assert_eq!(
        stream_url("http://s", "ses_1", i64::MIN),
        "http://s/sessions/ses_1/events/stream?after_seq=-9223372036854775808"
    );
    let cloned = environment_for(Some("a/b".into()), Some("main".into()));
    assert_eq!((cloned.kind.as_str(), cloned.base_branch.as_deref()), ("github_repo", Some("main")));
    let plain = environment_for(None, Some("main".into()));
    assert_eq!((plain.kind.as_str(), plain.base_branch), ("self_hosted", None));
}
