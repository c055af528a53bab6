use vise::events::{enqueue, upload_reply, UploadReply, UploadStep, Uploader};
use vise::json::{parse_json, Json};
use vise::model::EventFidelity;
use vise::redact::{redact_payload, REDACTED};
use vise::runtime::EchoRuntime;

fn json(text: &str) -> Json {
    parse_json(text).expect("JSON")
}

fn redacted(text: &str) -> Json {
    let mut payload = json(text);
    redact_payload(&mut payload);
    payload
}

/// The value behind a path of keys and positions.
fn at<'a>(value: &'a Json, path: &[&str]) -> &'a Json {
    let mut here = value;
    for step in path {
        here = match here {
            Json::Array(items) => &items[step.parse::<usize>().unwrap()],
            other => other.get(step).unwrap_or_else(|| panic!("no {step} in {other:?}")),
        };
    }
    here
}

fn text<'a>(value: &'a Json, path: &[&str]) -> &'a str {
    at(value, path).as_str().expect("a string")
}

fn contains(value: &Json, needle: &str) -> bool {
    format!("{value:?}").contains(needle)
}

#[test]
fn strips_message_text_but_keeps_kind_and_structure() {
    let out = redacted(
        r#"{
            "sessionId": "sess-1",
            "update": {
                "sessionUpdate": "agent_message_chunk",
                "content": { "type": "text", "text": "the secret plan" }
            }
        }"#,
    );

    assert_eq!(text(&out, &["sessionId"]), "sess-1");
    assert_eq!(text(&out, &["update", "sessionUpdate"]), "agent_message_chunk");
    assert_eq!(text(&out, &["update", "content", "type"]), "text");
    assert_eq!(text(&out, &["update", "content", "text"]), REDACTED);
    assert!(!contains(&out, "secret"));
}

#[test]
fn strips_echo_runtime_chunks_without_the_notification_wrapper() {
    let out = redacted(
        r#"{
            "sessionUpdate": "agent_message_chunk",
            "content": { "type": "text", "text": "Echo: do the thing" }
        }"#,
    );

    assert_eq!(text(&out, &["sessionUpdate"]), "agent_message_chunk");
    assert_eq!(text(&out, &["content", "text"]), REDACTED);
    assert!(!contains(&out, "Echo"));
}

#[test]
fn keeps_tool_call_name_kind_status_and_paths() {
    let out = redacted(
        r#"{
            "sessionId": "sess-1",
            "update": {
                "sessionUpdate": "tool_call",
                "toolCallId": "call_1",
                "title": "Read file",
                "kind": "read",
                "status": "in_progress",
                "locations": [{ "path": "/repo/src/lib.rs", "line": 42 }],
                "rawInput": { "file_path": "top secret argument", "offset": 10 }
            }
        }"#,
    );

    let update = at(&out, &["update"]);
    assert_eq!(text(update, &["toolCallId"]), "call_1");
    assert_eq!(text(update, &["title"]), "Read file");
    assert_eq!(text(update, &["kind"]), "read");
    assert_eq!(text(update, &["status"]), "in_progress");
    assert_eq!(text(update, &["locations", "0", "path"]), "/repo/src/lib.rs");
    assert_eq!(at(update, &["locations", "0", "line"]), &json("42"));
    // rawInput strings are content; numbers are not.
    assert_eq!(text(update, &["rawInput", "file_path"]), REDACTED);
    assert_eq!(at(update, &["rawInput", "offset"]), &json("10"));
}

#[test]
fn strips_diffs_file_contents_and_command_output() {
    let out = redacted(
        r#"{
            "sessionId": "sess-1",
            "update": {
                "sessionUpdate": "tool_call_update",
                "toolCallId": "call_2",
                "status": "completed",
                "content": [
                    {
                        "type": "diff",
                        "path": "/repo/src/main.rs",
                        "oldText": "fn old() {}",
                        "newText": "fn new() {}"
                    },
                    {
                        "type": "content",
                        "content": { "type": "text", "text": "cargo test output..." }
                    }
                ],
                "rawOutput": { "stdout": "compiled 3 crates", "exit_code": 0 }
            }
        }"#,
    );

    let content = at(&out, &["update", "content"]);
    assert_eq!(text(content, &["0", "type"]), "diff");
    assert_eq!(text(content, &["0", "path"]), "/repo/src/main.rs");
    assert_eq!(text(content, &["0", "oldText"]), REDACTED);
    assert_eq!(text(content, &["0", "newText"]), REDACTED);
    assert_eq!(text(content, &["1", "content", "text"]), REDACTED);
    assert_eq!(text(&out, &["update", "rawOutput", "stdout"]), REDACTED);
    assert_eq!(at(&out, &["update", "rawOutput", "exit_code"]), &json("0"));

    assert!(!contains(&out, "fn old"));
    assert!(!contains(&out, "fn new"));
    assert!(!contains(&out, "cargo test output"));
    assert!(!contains(&out, "compiled"));
}

#[test]
fn strips_plan_text_but_keeps_step_count_priority_and_status() {
    let out = redacted(
        r#"{
            "sessionId": "sess-1",
            "update": {
                "sessionUpdate": "plan",
                "entries": [
                    { "content": "step one: read the config", "priority": "high", "status": "pending" },
                    { "content": "step two: rewrite it", "priority": "low", "status": "pending" }
                ]
            }
        }"#,
    );

    let entries = match at(&out, &["update", "entries"]) {
        Json::Array(entries) => entries,
        other => panic!("{other:?}"),
    };
    assert_eq!(entries.len(), 2, "plan-step count must survive");
    for entry in entries {
        assert_eq!(text(entry, &["content"]), REDACTED);
    }
    assert_eq!(text(&entries[0], &["priority"]), "high");
    assert_eq!(text(&entries[1], &["status"]), "pending");
    assert!(!contains(&out, "step one"));
}

#[test]
fn strips_session_title_outside_tool_calls() {
    // SessionInfoUpdate titles are derived from the conversation: content.
    let out = redacted(
        r#"{
            "sessionId": "sess-1",
            "update": {
                "sessionUpdate": "session_info_update",
                "title": "Fixing the flaky login test"
            }
        }"#,
    );

    assert_eq!(text(&out, &["update", "title"]), REDACTED);
}

#[test]
fn strips_thought_chunks() {
    let out = redacted(
        r#"{
            "sessionId": "sess-1",
            "update": {
                "sessionUpdate": "agent_thought_chunk",
                "content": { "type": "text", "text": "thinking about secrets" }
            }
        }"#,
    );

    assert_eq!(text(&out, &["update", "content", "text"]), REDACTED);
}

#[test]
fn redacts_permission_request_events_but_keeps_option_ids() {
    let out = redacted(
        r#"{
            "permissionRequest": {
                "sessionId": "sess-1",
                "toolCall": {
                    "toolCallId": "call_3",
                    "title": "Run tests",
                    "kind": "execute",
                    "rawInput": { "command": "rm -rf /tmp/scratch" }
                },
                "options": [
                    { "optionId": "allow", "name": "Allow", "kind": "allow_once" }
                ]
            },
            "autoApproved": "allow"
        }"#,
    );

    let request = at(&out, &["permissionRequest"]);
    assert_eq!(text(request, &["toolCall", "title"]), "Run tests");
    assert_eq!(text(request, &["toolCall", "rawInput", "command"]), REDACTED);
    assert_eq!(text(request, &["options", "0", "optionId"]), "allow");
    assert_eq!(text(&out, &["autoApproved"]), "allow");
    assert!(!contains(&out, "rm -rf"));
}

#[test]
fn keeps_numbers_booleans_and_nulls() {
    let payload = r#"{
        "sessionUpdate": "usage_update",
        "usedTokens": 1234,
        "cached": true,
        "cost": null,
        "at": 1758000000
    }"#;
    assert_eq!(redacted(payload), json(payload));
}

#[test]
fn redacts_bare_string_payloads() {
    assert_eq!(redacted(r#""free-floating content""#), Json::Text(REDACTED.to_string()));
}

#[test]
fn redacting_twice_is_redacting_once() {
    let mut payload = json(r#"{"a":["x",{"toolCallId":"1","title":"t","b":"c"}],"path":"/p"}"#);
    redact_payload(&mut payload);
    let once = format!("{payload:?}");
    redact_payload(&mut payload);
    assert_eq!(format!("{payload:?}"), once);
    assert_eq!(text(&payload, &["a", "1", "title"]), "t");
    assert_eq!(text(&payload, &["a", "0"]), REDACTED);
    assert_eq!(text(&payload, &["path"]), "/p");
}

#[test]
fn unreadable_json_is_refused() {
    assert!(parse_json("{").is_none());
    assert!(parse_json("").is_none());
    assert_eq!(parse_json(" [ 1.5, -2, true ] "), parse_json("[1.5,-2,true]"));
    assert_ne!(parse_json("[1.5]"), parse_json("[2.5]"));
}

fn drain(uploader: &mut Uploader) -> Vec<(i64, String)> {
    uploader
        .pending()
        .iter()
        .map(|event| (event.seq, format!("{:?}", event.payload)))
        .collect()
}

#[test]
fn full_fidelity_uploads_payloads_verbatim() {
    let sent = [
        r#"{"sessionUpdate":"agent_message_chunk","content":{"type":"text","text":"the secret plan"}}"#,
        r#"{"sessionUpdate":"tool_call","toolCallId":"call_1","title":"Run tests","rawInput":{"command":"cargo test"}}"#,
    ];
    let mut uploader = Uploader::new(EventFidelity::Full);
    for payload in sent {
        uploader.push(json(payload));
    }
    assert_eq!(
        drain(&mut uploader),
        vec![
            (1, format!("{:?}", json(sent[0]))),
            (2, format!("{:?}", json(sent[1])))
        ]
    );
}

#[test]
fn redacted_fidelity_never_puts_content_in_the_request_body() {
    let mut uploader = Uploader::new(EventFidelity::Redacted);
    uploader.push(json(
        r#"{"sessionId":"acp-1","update":{"sessionUpdate":"agent_message_chunk","content":{"type":"text","text":"SECRET_MESSAGE_TEXT"}}}"#,
    ));
    uploader.push(json(
        r#"{"sessionId":"acp-1","update":{"sessionUpdate":"tool_call_update","toolCallId":"call_1","status":"completed","content":[{"type":"diff","path":"/repo/src/lib.rs","oldText":"SECRET_OLD_CODE","newText":"SECRET_NEW_CODE"}],"rawOutput":{"stdout":"SECRET_COMMAND_OUTPUT"}}}"#,
    ));
    let events = uploader.pending();
    assert_eq!(events.len(), 2);
    for event in events {
        assert!(!contains(&event.payload, "SECRET"), "{event:?}");
    }
    assert_eq!(text(&events[1].payload, &["update", "toolCallId"]), "call_1");
    assert_eq!(
        text(&events[1].payload, &["update", "content", "0", "path"]),
        "/repo/src/lib.rs"
    );
}

#[test]
fn echo_harness_events_are_redacted_end_to_end() {
    let mut uploader = Uploader::new(EventFidelity::Redacted);
    for chunk in EchoRuntime.chunks("SECRET_TASK_INPUT do the thing") {
        uploader.push(chunk);
    }
    let events = uploader.pending();
    let seqs: Vec<i64> = events.iter().map(|event| event.seq).collect();
    assert_eq!(seqs, vec![1, 2, 3]);
    for event in events {
        assert!(!contains(&event.payload, "SECRET_TASK_INPUT"), "input leaked");
        assert!(!contains(&event.payload, "Echo"), "echoed content leaked");
        assert_eq!(text(&event.payload, &["sessionUpdate"]), "agent_message_chunk");
        assert_eq!(text(&event.payload, &["content", "type"]), "text");
    }
}

#[test]
fn uploads_are_retried_until_they_go_through() {
    let mut uploader = Uploader::new(EventFidelity::Full);
    assert!(matches!(uploader.settle(None), UploadStep::Continue));
    uploader.push(json("1"));
    assert!(matches!(uploader.settle(Some(UploadReply::Unavailable)), UploadStep::Continue));
    assert_eq!(uploader.pending().len(), 1);
    uploader.push(json("2"));
    assert!(matches!(uploader.settle(Some(UploadReply::Accepted)), UploadStep::Continue));
    assert_eq!(uploader.pending().len(), 0);
    uploader.push(json("3"));
    assert_eq!(uploader.pending()[0].seq, 3);
    assert!(uploader.is_open());
    uploader.close();
    assert!(!uploader.is_open());
    assert!(matches!(uploader.settle(Some(UploadReply::Accepted)), UploadStep::Finished));
    assert_eq!(uploader.last_seq(), 3);
}

#[test]
fn refused_events_are_given_up() {
    let mut uploader = Uploader::new(EventFidelity::Full);
    uploader.push(json("1"));
    uploader.push(json("2"));
    match uploader.settle(Some(UploadReply::Refused("409 Conflict".into()))) {
        UploadStep::Abandon(message) => assert_eq!(message, "dropping 2 events: 409 Conflict"),
        other => panic!("{other:?}"),
    }
}

#[test]
fn enqueue_numbers_events() {
    let mut buffer = Vec::new();
    let mut seq = 41;
    enqueue(&mut buffer, &mut seq, EventFidelity::Redacted, Json::Text("x".into()));
    assert_eq!(seq, 42);
    assert_eq!(buffer[0].seq, 42);
    assert_eq!(buffer[0].payload, Json::Text(REDACTED.into()));
}

#[test]
fn only_a_4xx_gives_events_up() {
    for status in [400, 409, 499] {
        assert!(matches!(upload_reply(Some(status), "gone".into()), UploadReply::Refused(error)
            if error == "gone"));
    }
    for status in [Some(399), Some(500), Some(503), None] {
        assert!(matches!(upload_reply(status, "later".into()), UploadReply::Unavailable));
    }
}
