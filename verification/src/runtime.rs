//! How a session's run ends, and the runtime that only echoes.

use vstd::prelude::*;

use crate::json::{
    lemma_member_index_is, member, object1, text_value, with_member, Json, JsonView,
};
use crate::render::{messages_are_printed_verbatim, render_payload};

verus! {

/// How a run ended.
#[derive(Debug)]
pub enum RunOutcome {
    Completed { stop_reason: String },
    Cancelled,
}

/// How long the echo runtime waits after each chunk, in milliseconds.
pub const ECHO_PAUSE_MS: u64 = 500;

/// An agent's message chunk.
pub open spec fn message_chunk(text: Seq<char>) -> JsonView {
    JsonView::Object(
        seq![
            ("sessionUpdate"@, JsonView::Text("agent_message_chunk"@)),
            (
                "content"@,
                JsonView::Object(
                    seq![
                        ("type"@, JsonView::Text("text"@)),
                        ("text"@, JsonView::Text(text)),
                    ],
                ),
            ),
        ],
    )
}

/// An agent's message chunk.
pub fn chunk(text: &str) -> (r: Json)
    ensures
        r@ == message_chunk(text@),
{
    let content: Json = with_member(object1("type", text_value("text")), "text", text_value(text));
    let r: Json = with_member(
        object1("sessionUpdate", text_value("agent_message_chunk")),
        "content",
        content,
    );
    assert(content@->Object_0 =~= message_chunk(text@)->Object_0[1].1->Object_0);
    assert(r@->Object_0 =~= message_chunk(text@)->Object_0);
    r
}

/// Fake runtime that echoes the session input back as ACP-style
/// agent_message_chunk events. Proves the control loop before ACP lands.
#[derive(Debug, Clone, Copy)]
pub struct EchoRuntime;

impl EchoRuntime {
    /// The events of a run, in order.
    pub fn chunks(&self, input: &str) -> (r: Vec<Json>)
        ensures
            r@.len() == 3,
            r@[0]@ == message_chunk("Echo: "@),
            r@[1]@ == message_chunk(input@),
            r@[2]@ == message_chunk("\n"@),
    {
        let mut out: Vec<Json> = Vec::new();
        out.push(chunk("Echo: "));
        out.push(chunk(input));
        out.push(chunk("\n"));
        out
    }

    /// Where the run stands after `sent` events, `cancelled` telling whether it
    /// was cancelled in the pause after the last one: `None` to go on.
    pub fn after_chunk(&self, sent: usize, cancelled: bool) -> (r: Option<RunOutcome>)
        ensures
            match r {
                Some(RunOutcome::Cancelled) => cancelled,
                Some(RunOutcome::Completed { stop_reason }) => !cancelled && sent >= 3
                    && stop_reason@ == "end_turn"@,
                None => !cancelled && sent < 3,
            },
    {
        if cancelled {
            Some(RunOutcome::Cancelled)
        } else if sent >= 3 {
            Some(RunOutcome::Completed { stop_reason: "end_turn".to_owned() })
        } else {
            None
        }
    }
}

proof fn lemma_chunk_members(text: Seq<char>)
    ensures
        member(message_chunk(text), "sessionUpdate"@) == JsonView::Text("agent_message_chunk"@),
        member(member(message_chunk(text), "content"@), "text"@) == JsonView::Text(text),
        !(member(message_chunk(text), "permissionRequest"@) is Object),
        !(member(message_chunk(text), "type"@) is Text),
        !(member(message_chunk(text), "update"@) is Object),
{
    reveal_strlit("sessionUpdate");
    reveal_strlit("content");
    reveal_strlit("type");
    reveal_strlit("text");
    reveal_strlit("permissionRequest");
    reveal_strlit("update");
    assert("sessionUpdate"@.len() == 13 && "content"@.len() == 7 && "type"@.len() == 4
        && "permissionRequest"@.len() == 17 && "update"@.len() == 6);
    assert("type"@[1] != "text"@[1]);
    let members = message_chunk(text)->Object_0;
    let inner = members[1].1->Object_0;
    lemma_member_index_is(members, "sessionUpdate"@, 0);
    lemma_member_index_is(members, "content"@, 1);
    lemma_member_index_is(members, "permissionRequest"@, 2);
    lemma_member_index_is(members, "type"@, 2);
    lemma_member_index_is(members, "update"@, 2);
    lemma_member_index_is(inner, "text"@, 1);
}

/// The echo runtime says what it was told: its events, printed one after
/// another, are the input behind `Echo: ` and on a line.
pub proof fn the_echo_is_the_input(
    input: &str,
    events: Vec<Json>,
    first: String,
    second: String,
    third: String,
)
    requires
        call_ensures(EchoRuntime::chunks, (&EchoRuntime, input), events),
        call_ensures(render_payload, (&events@[0],), first),
        call_ensures(render_payload, (&events@[1],), second),
        call_ensures(render_payload, (&events@[2],), third),
    ensures
        events@.len() == 3,
        first@ + second@ + third@ == "Echo: "@ + input@ + "\n"@,
{
    lemma_chunk_members("Echo: "@);
    lemma_chunk_members(input@);
    lemma_chunk_members("\n"@);
    messages_are_printed_verbatim(&events@[0], first, events@[0]@, "Echo: "@);
    messages_are_printed_verbatim(&events@[1], second, events@[1]@, input@);
    messages_are_printed_verbatim(&events@[2], third, events@[2]@, "\n"@);
}

/// An echo goes on until everything is said or it is cancelled, which comes
/// first.
pub proof fn an_echo_ends_when_all_is_said(sent: usize, cancelled: bool, r: Option<RunOutcome>)
    requires
        call_ensures(EchoRuntime::after_chunk, (&EchoRuntime, sent, cancelled), r),
    ensures
        cancelled ==> r == Some(RunOutcome::Cancelled),
        !cancelled && sent < 3 ==> r is None,
        !cancelled && sent >= 3 ==> (r matches Some(RunOutcome::Completed { stop_reason })
            && stop_reason@ == "end_turn"@),
{
}

/// A chunk of a message is printed as its text, and the echo pauses for half a
/// second between two.
pub proof fn chunks_are_printed_as_their_text(text: &str, r: Json, printed: String)
    requires
        call_ensures(chunk, (text,), r),
        call_ensures(render_payload, (&r,), printed),
    ensures
        printed@ == text@,
        2 * ECHO_PAUSE_MS == 1000,
{
    lemma_chunk_members(text@);
    messages_are_printed_verbatim(&r, printed, r@, text@);
}

} // verus!
