//! What the command line prints about sessions: event payloads, the event
//! stream, the session table and the pull request summary.

use vstd::prelude::*;
use vstd::string::*;

use crate::decimal::{decimal_int, to_decimal_signed};
use crate::json::{member, parse_json, parsed_json, text_of_value, Json, JsonView};
use crate::model::{
    checks_name, pr_state_name, status_name, ChecksState, Environment, PrState, PrStatus, Session,
};
use crate::text::{
    after_prefix, chars_of, lemma_concat_assoc, lemma_concat_empty, lines_of, prefixes_come_off,
    push_chars, read_utf8, same_text, slice_views, split_lines, starts, string_views,
    strip_prefix, text_of, trim, trim_start, trimmed, trimmed_start, utf8_text,
};
use crate::time::{in_calendar, rfc3339_text};

verus! {

// --- event payloads -----------------------------------------------------------

/// The text of `v`, or `other` when it is none.
pub open spec fn text_or(v: JsonView, other: Seq<char>) -> Seq<char> {
    match text_of_value(v) {
        Some(t) => t,
        None => other,
    }
}

/// A line in square brackets.
pub open spec fn bracketed(t: Seq<char>) -> Seq<char> {
    "\n["@ + t + "]\n"@
}

/// The line for a transition of pull request tracking.
pub open spec fn transition_line(payload: JsonView, kind: Seq<char>) -> Seq<char> {
    let from = text_or(member(payload, "from"@), "unknown"@);
    let to = text_or(member(payload, "to"@), "none"@);
    if kind == "pr_state_changed"@ {
        "\n[pr] "@ + from + " -> "@ + to + "\n"@
    } else if kind == "checks_state_changed"@ {
        "\n[checks] "@ + from + " -> "@ + to + "\n"@
    } else {
        bracketed(kind)
    }
}

/// What is printed for an agent's update.
pub open spec fn update_text(update: JsonView) -> Seq<char> {
    match text_of_value(member(update, "sessionUpdate"@)) {
        Some(kind) => if kind == "agent_message_chunk"@ {
            text_or(member(member(update, "content"@), "text"@), Seq::empty())
        } else if kind == "tool_call"@ {
            "\n[tool] "@ + text_or(member(update, "title"@), "tool call"@) + "\n"@
        } else if kind == "agent_thought_chunk"@ || kind == "tool_call_update"@ || kind == "plan"@ {
            Seq::empty()
        } else {
            bracketed(kind)
        },
        None => Seq::empty(),
    }
}

/// What is printed for a payload.
pub open spec fn payload_text(payload: JsonView) -> Seq<char> {
    if member(payload, "permissionRequest"@) is Object {
        "\n[permission auto-approved]\n"@
    } else {
        match text_of_value(member(payload, "type"@)) {
            Some(kind) => transition_line(payload, kind),
            None => update_text(
                if member(payload, "update"@) is Object {
                    member(payload, "update"@)
                } else {
                    payload
                },
            ),
        }
    }
}

/// The text under `key`, or `other`.
fn text_under<'a>(payload: &'a Json, key: &str, other: &'a str) -> (r: &'a str)
    ensures
        r@ == text_or(member(payload@, key@), other@),
{
    match payload.get_str(key) {
        Some(t) => t,
        None => other,
    }
}

/// Appends a line in square brackets.
fn push_bracketed(out: &mut String, t: &str)
    ensures
        final(out)@ == old(out)@ + bracketed(t@),
{
    broadcast use lemma_concat_assoc;

    out.append("\n[");
    out.append(t);
    out.append("]\n");
}

/// Appends a line that names two states.
fn push_change(out: &mut String, label: &str, from: &str, to: &str)
    ensures
        final(out)@ == old(out)@ + (label@ + from@ + " -> "@ + to@ + "\n"@),
{
    broadcast use lemma_concat_assoc;

    out.append(label);
    out.append(from);
    out.append(" -> ");
    out.append(to);
    out.append("\n");
}

/// Appends what is printed for an agent's update.
fn push_update(out: &mut String, update: &Json)
    ensures
        final(out)@ == old(out)@ + update_text(update@),
{
    broadcast use {lemma_concat_assoc, lemma_concat_empty};

    match update.get_str("sessionUpdate") {
        Some(kind) => {
            if same_text(kind, "agent_message_chunk") {
                match update.get("content") {
                    Some(content) => match content.get_str("text") {
                        Some(t) => out.append(t),
                        None => {},
                    },
                    None => {},
                }
            } else if same_text(kind, "tool_call") {
                out.append("\n[tool] ");
                out.append(text_under(update, "title", "tool call"));
                out.append("\n");
            } else if same_text(kind, "agent_thought_chunk") || same_text(kind, "tool_call_update")
                || same_text(kind, "plan") {
            } else {
                push_bracketed(out, kind);
            }
        },
        None => {},
    }
}

/// What is printed for a payload. ACP notifications arrive as
/// `{ sessionId, update: { sessionUpdate, ... } }`; echo-runtime and audit
/// events are flat.
pub fn render_payload(payload: &Json) -> (r: String)
    ensures
        r@ == payload_text(payload@),
{
    broadcast use lemma_concat_assoc;

    let mut out = String::new();
    assert forall|t: Seq<char>| #[trigger] (out@ + t) == t by {
        assert(out@ + t =~= t);
    }
    if payload.get("permissionRequest").is_some() && payload.get(
        "permissionRequest",
    ).unwrap().is_object() {
        out.append("\n[permission auto-approved]\n");
        return out;
    }
    // Server-side PR tracking transitions on finished sessions.
    match payload.get_str("type") {
        Some(kind) => {
            let from: &str = text_under(payload, "from", "unknown");
            let to: &str = text_under(payload, "to", "none");
            if same_text(kind, "pr_state_changed") {
                push_change(&mut out, "\n[pr] ", from, to);
            } else if same_text(kind, "checks_state_changed") {
                push_change(&mut out, "\n[checks] ", from, to);
            } else {
                push_bracketed(&mut out, kind);
            }
        },
        None => match payload.get("update") {
            Some(update) => if update.is_object() {
                push_update(&mut out, update);
            } else {
                push_update(&mut out, payload);
            },
            None => push_update(&mut out, payload),
        },
    }
    out
}

// --- the event stream -----------------------------------------------------------

/// The name and the data that the lines of one stream event give.
pub open spec fn sse_fields(lines: Seq<Seq<char>>) -> (Seq<char>, Seq<char>)
    decreases lines.len(),
{
    if lines.len() == 0 {
        ("message"@, Seq::empty())
    } else {
        let (name, data) = sse_fields(lines.drop_last());
        match after_prefix(lines.last(), "event:"@) {
            Some(value) => (trimmed(value), data),
            None => match after_prefix(lines.last(), "data:"@) {
                Some(value) => (name, data + trimmed_start(value)),
                None => (name, data),
            },
        }
    }
}

/// One event of a stream.
#[derive(Debug, Clone, PartialEq, Eq)]
pub struct StreamEvent {
    pub name: String,
    pub data: String,
}

/// Reads one event of a stream; ids and keep-alive comments are ignored.
pub fn parse_sse_event(raw: &str) -> (r: StreamEvent)
    ensures
        (r.name@, r.data@) == sse_fields(lines_of(raw@)),
{
    let chars: Vec<char> = chars_of(raw);
    let lines: Vec<&[char]> = split_lines(&chars);
    let event_prefix: Vec<char> = chars_of("event:");
    let data_prefix: Vec<char> = chars_of("data:");
    let mut name = "message".to_owned();
    let mut data = String::new();
    let ghost views = lines_of(raw@);
    for i in 0..lines.len()
        invariant
            slice_views(lines@) == views,
            event_prefix@ == "event:"@,
            data_prefix@ == "data:"@,
            (name@, data@) == sse_fields(views.take(i as int)),
    {
        proof {
            assert(views.take(i + 1).drop_last() =~= views.take(i as int));
            assert(views.take(i + 1).last() == slice_views(lines@)[i as int]);
        }
        let line: &[char] = lines[i];
        match strip_prefix(line, &event_prefix) {
            Some(value) => {
                name = text_of(trim(value));
            },
            None => match strip_prefix(line, &data_prefix) {
                Some(value) => push_chars(&mut data, trim_start(value)),
                None => {},
            },
        }
    }
    assert(views.take(views.len() as int) =~= views);
    StreamEvent { name, data }
}

/// What is printed for a stream event whose data reads as `parsed`.
pub open spec fn stream_event_text(
    name: Seq<char>,
    data: Seq<char>,
    parsed: Option<JsonView>,
) -> Seq<char> {
    if name == "done"@ {
        if data == "merged"@ || data == "closed"@ {
            "\n── pr "@ + data + " ──\n"@
        } else {
            "\n── session "@ + data + " ──\n"@
        }
    } else {
        match parsed {
            Some(event) => payload_text(member(event, "payload"@)),
            None => Seq::empty(),
        }
    }
}

/// What is printed for a stream event, given what its data reads as.
pub fn render_stream_event(event: &StreamEvent, parsed: &Option<Json>) -> (r: String)
    ensures
        r@ == stream_event_text(
            event.name@,
            event.data@,
            match *parsed {
                Some(j) => Some(j@),
                None => None,
            },
        ),
{
    broadcast use lemma_concat_assoc;

    let mut out = String::new();
    assert forall|t: Seq<char>| #[trigger] (out@ + t) == t by {
        assert(out@ + t =~= t);
    }
    if same_text(event.name.as_str(), "done") {
        if same_text(event.data.as_str(), "merged") || same_text(event.data.as_str(), "closed") {
            out.append("\n── pr ");
        } else {
            out.append("\n── session ");
        }
        out.append(event.data.as_str());
        out.append(" ──\n");
        out
    } else {
        match parsed {
            Some(value) => match value.get("payload") {
                Some(payload) => render_payload(payload),
                None => render_payload(&Json::Null),
            },
            None => out,
        }
    }
}

/// What is printed for one event of a stream.
pub fn render_sse_event(raw: &str) -> (r: String)
    ensures
        ({
            let (name, data) = sse_fields(lines_of(raw@));
            r@ == stream_event_text(name, data, parsed_json(data))
        }),
{
    let event: StreamEvent = parse_sse_event(raw);
    let parsed: Option<Json> = parse_json(event.data.as_str());
    render_stream_event(&event, &parsed)
}

/// Position of the first blank line: of the first `"\n\n"`, or the length.
pub open spec fn boundary(s: Seq<char>) -> int
    decreases s.len(),
{
    if s.len() < 2 {
        s.len() as int
    } else if s[0] == '\n' && s[1] == '\n' {
        0
    } else {
        1 + boundary(s.skip(1))
    }
}

/// The complete events of a stream's text and what follows them.
pub open spec fn stream_blocks(s: Seq<char>) -> (Seq<Seq<char>>, Seq<char>)
    decreases s.len(),
{
    let i = boundary(s);
    if 0 <= i && i + 2 <= s.len() {
        let (rest, left) = stream_blocks(s.skip(i + 2));
        (seq![s.take(i)] + rest, left)
    } else {
        (Seq::empty(), s)
    }
}

proof fn lemma_boundary(s: Seq<char>, i: int)
    requires
        0 <= i <= s.len(),
        forall|j: int|
            0 <= j < i && j + 1 < s.len() ==> !(#[trigger] s[j] == '\n' && s[j + 1] == '\n'),
        i < s.len() ==> i + 1 < s.len() && s[i] == '\n' && s[i + 1] == '\n',
    ensures
        boundary(s) == i,
    decreases i,
{
    if i > 0 {
        if s.len() >= 2 {
            assert(!(s[0] == '\n' && s[1] == '\n'));
            let t = s.skip(1);
            assert forall|j: int| 0 <= j < i - 1 && j + 1 < t.len() implies !(#[trigger] t[j]
                == '\n' && t[j + 1] == '\n') by {
                assert(t[j] == s[j + 1]);
                assert(t[j + 1] == s[j + 2]);
            }
            lemma_boundary(t, i - 1);
        }
    }
}

proof fn lemma_boundary_facts(s: Seq<char>)
    ensures
        0 <= boundary(s) <= s.len(),
        forall|j: int|
            0 <= j < boundary(s) && j + 1 < s.len() ==> !(#[trigger] s[j] == '\n' && s[j + 1]
                == '\n'),
        boundary(s) < s.len() ==> boundary(s) + 1 < s.len() && s[boundary(s)] == '\n' && s[boundary(
            s,
        ) + 1] == '\n',
    decreases s.len(),
{
    if s.len() >= 2 && !(s[0] == '\n' && s[1] == '\n') {
        let t = s.skip(1);
        lemma_boundary_facts(t);
        assert forall|j: int| 0 <= j < boundary(s) && j + 1 < s.len() implies !(#[trigger] s[j]
            == '\n' && s[j + 1] == '\n') by {
            if j > 0 {
                assert(t[j - 1] == s[j]);
                assert(t[j] == s[j + 1]);
            }
        }
    }
}

/// It does not matter how a stream is cut into chunks: the events of one chunk
/// followed by those of the next are the events of both together.
pub proof fn chunks_do_not_matter(a: Seq<char>, b: Seq<char>)
    ensures
        ({
            let (first, left) = stream_blocks(a);
            let (second, rest) = stream_blocks(left + b);
            stream_blocks(a + b) == (first + second, rest)
        }),
    decreases a.len(),
{
    let i = boundary(a);
    lemma_boundary_facts(a);
    let (second, rest) = stream_blocks(stream_blocks(a).1 + b);
    if i < a.len() {
        let t = a.skip(i + 2);
        let whole = a + b;
        assert forall|j: int| 0 <= j < i && j + 1 < whole.len() implies !(#[trigger] whole[j]
            == '\n' && whole[j + 1] == '\n') by {
            assert(whole[j] == a[j]);
            assert(whole[j + 1] == a[j + 1]);
        }
        lemma_boundary(whole, i);
        assert(whole.skip(i + 2) =~= t + b);
        assert(whole.take(i) =~= a.take(i));
        chunks_do_not_matter(t, b);
        let more = stream_blocks(t).0;
        assert(seq![a.take(i)] + (more + second) =~= (seq![a.take(i)] + more) + second);
    } else {
        assert(Seq::<Seq<char>>::empty() + second =~= second);
    }
}

fn find_boundary(s: &[char]) -> (r: usize)
    ensures
        r as int == boundary(s@),
        r <= s@.len(),
        r < s@.len() ==> r + 2 <= s@.len(),
{
    let mut i: usize = 0;
    while i < s.len()
        invariant
            i <= s.len(),
            forall|j: int|
                0 <= j < i && j + 1 < s@.len() ==> !(#[trigger] s@[j] == '\n' && s@[j + 1] == '\n'),
        decreases s.len() - i,
    {
        if i + 1 < s.len() && s[i] == '\n' && s[i + 1] == '\n' {
            proof {
                lemma_boundary(s@, i as int);
            }
            return i;
        }
        i += 1;
    }
    proof {
        lemma_boundary(s@, i as int);
    }
    i
}

/// Splits a stream's text into its complete events, which a blank line ends,
/// and what follows them.
fn split_stream(s: &[char]) -> (r: (Vec<String>, String))
    ensures
        (string_views(r.0@), r.1@) == stream_blocks(s@),
    decreases s@.len(),
{
    let mut out: Vec<String> = Vec::new();
    let mut rest: &[char] = s;
    assert(string_views(out@) + stream_blocks(rest@).0 =~= stream_blocks(s@).0);
    loop
        invariant
            string_views(out@) + stream_blocks(rest@).0 == stream_blocks(s@).0,
            stream_blocks(rest@).1 == stream_blocks(s@).1,
        decreases rest@.len(),
    {
        let i: usize = find_boundary(rest);
        let ghost before = string_views(out@);
        if i < rest.len() {
            let head: &[char] = &rest[0..i];
            let tail: &[char] = &rest[i + 2..rest.len()];
            out.push(text_of(head));
            proof {
                assert(head@ =~= rest@.take(i as int));
                assert(tail@ =~= rest@.skip(i + 2));
                assert(string_views(out@) =~= before.push(head@));
                let more = stream_blocks(tail@).0;
                assert(before + (seq![head@] + more) =~= before.push(head@) + more);
            }
            rest = tail;
        } else {
            proof {
                assert(before + Seq::empty() =~= before);
            }
            return (out, text_of(rest));
        }
    }
}

/// Text of an event stream that has not made a complete event yet.
pub struct StreamBuffer {
    text: String,
}

impl View for StreamBuffer {
    type V = Seq<char>;

    closed spec fn view(&self) -> Seq<char> {
        self.text@
    }
}

impl StreamBuffer {
    /// An empty buffer.
    pub fn new() -> (r: StreamBuffer)
        ensures
            r@ == Seq::<char>::empty(),
    {
        StreamBuffer { text: String::new() }
    }

    /// Appends a chunk of the stream and takes the events it completes.
    pub fn feed(&mut self, chunk: &[u8]) -> (r: Vec<String>)
        ensures
            (string_views(r@), final(self)@) == stream_blocks(old(self)@ + utf8_text(chunk@)),
    {
        self.text.append(read_utf8(chunk).as_str());
        let chars: Vec<char> = chars_of(self.text.as_str());
        let (events, rest) = split_stream(&chars);
        self.text = rest;
        events
    }
}

// --- sessions -----------------------------------------------------------

/// `n` blanks.
pub open spec fn blanks(n: int) -> Seq<char> {
    Seq::new(
        if n > 0 {
            n as nat
        } else {
            0
        },
        |i: int| ' ',
    )
}

/// `s` padded with blanks on its right to at least `width` characters, and one
/// blank more.
pub open spec fn column(s: Seq<char>, width: int) -> Seq<char> {
    s + blanks(width - s.len()) + " "@
}

/// Appends a column of a table.
fn push_column(out: &mut String, s: &str, width: usize)
    ensures
        final(out)@ == old(out)@ + column(s@, width as int),
{
    broadcast use lemma_concat_assoc;

    out.append(s);
    let chars: Vec<char> = chars_of(s);
    let ghost before = out@;
    let mut i: usize = chars.len();
    while i < width
        invariant
            chars@ == s@,
            chars@.len() <= i,
            i <= width || i == chars@.len(),
            out@ =~= before + blanks(i - chars@.len()),
        decreases width - i,
    {
        out.push(' ');
        assert(blanks(i + 1 - chars@.len()) =~= blanks(i - chars@.len()).push(' '));
        i += 1;
    }
    assert(blanks(i - chars@.len()) =~= blanks(width - s@.len()));
    out.append(" ");
}

/// The names of a snapshot's state and checks, dashes where there is none.
pub open spec fn pr_names(status: Option<PrStatus>) -> (Seq<char>, Seq<char>) {
    match status {
        Some(s) => (
            pr_state_name(s.state),
            match s.checks {
                Some(c) => checks_name(c),
                None => "-"@,
            },
        ),
        None => ("-"@, "-"@),
    }
}

/// The pull request and checks columns of a session.
pub fn pr_state_columns(session: &Session) -> (r: (&'static str, &'static str))
    ensures
        (r.0@, r.1@) == pr_names(session.pr_status),
{
    match &session.pr_status {
        Some(status) => {
            let checks: &'static str = match &status.checks {
                Some(c) => c.as_str(),
                None => "-",
            };
            (status.state.as_str(), checks)
        },
        None => ("-", "-"),
    }
}

/// The heading of the session table.
pub open spec fn table_heading() -> Seq<char> {
    column("ID"@, 32) + column("STATUS"@, 10) + column("OUTCOME"@, 20) + column("PR"@, 18) + column(
        "CHECKS"@,
        8,
    ) + "CREATED\n"@
}

/// The kind of a session's outcome, or a dash.
pub open spec fn outcome_name(session: Session) -> Seq<char> {
    match session.outcome {
        Some(o) => o.kind@,
        None => "-"@,
    }
}

/// One row of the session table.
pub open spec fn table_row(session: Session) -> Seq<char> {
    column(session.id@, 32) + column(status_name(session.status), 10) + column(
        outcome_name(session),
        20,
    ) + column(pr_names(session.pr_status).0, 18) + column(pr_names(session.pr_status).1, 8)
        + rfc3339_text(session.created_at.secs, session.created_at.nanos) + "\n"@
}

/// The rows of the session table.
pub open spec fn table_rows(sessions: Seq<Session>) -> Seq<char>
    decreases sessions.len(),
{
    if sessions.len() == 0 {
        Seq::empty()
    } else {
        table_rows(sessions.drop_last()) + table_row(sessions.last())
    }
}

fn push_heading(out: &mut String)
    ensures
        final(out)@ == old(out)@ + table_heading(),
{
    broadcast use lemma_concat_assoc;

    push_column(out, "ID", 32);
    push_column(out, "STATUS", 10);
    push_column(out, "OUTCOME", 20);
    push_column(out, "PR", 18);
    push_column(out, "CHECKS", 8);
    out.append("CREATED\n");
}

fn push_row(out: &mut String, session: &Session)
    requires
        in_calendar(session.created_at),
    ensures
        final(out)@ == old(out)@ + table_row(*session),
{
    broadcast use lemma_concat_assoc;

    let outcome: &str = match &session.outcome {
        Some(o) => o.kind.as_str(),
        None => "-",
    };
    let (pr, checks) = pr_state_columns(session);
    push_column(out, session.id.as_str(), 32);
    push_column(out, session.status.as_str(), 10);
    push_column(out, outcome, 20);
    push_column(out, pr, 18);
    push_column(out, checks, 8);
    out.append(session.created_at.to_rfc3339().as_str());
    out.append("\n");
}

/// The session table.
pub fn render_session_table(sessions: &[Session]) -> (r: String)
    requires
        forall|i: int| 0 <= i < sessions@.len() ==> in_calendar((#[trigger] sessions@[i]).created_at),
    ensures
        r@ == table_heading() + table_rows(sessions@),
{
    let mut out = String::new();
    push_heading(&mut out);
    assert(out@ =~= table_heading() + table_rows(sessions@.take(0)));
    for i in 0..sessions.len()
        invariant
            forall|j: int|
                0 <= j < sessions@.len() ==> in_calendar((#[trigger] sessions@[j]).created_at),
            out@ == table_heading() + table_rows(sessions@.take(i as int)),
    {
        push_row(&mut out, &sessions[i]);
        proof {
            let before = sessions@.take(i as int);
            assert(sessions@.take(i + 1).drop_last() =~= before);
            lemma_concat_assoc(table_heading(), table_rows(before), table_row(sessions@[i as int]));
        }
    }
    assert(sessions@.take(sessions@.len() as int) =~= sessions@);
    out
}

/// One line describing the pull request tracking snapshot, when there is one.
pub open spec fn pr_summary(session: Session) -> Seq<char> {
    match session.pr_status {
        Some(status) => {
            let url = match session.outcome {
                Some(o) => match o.pr_url {
                    Some(u) => u@,
                    None => "-"@,
                },
                None => "-"@,
            };
            "PR "@ + url + ": "@ + pr_names(session.pr_status).0 + ", checks "@ + pr_names(
                session.pr_status,
            ).1 + " (synced "@ + rfc3339_text(
                status.last_synced_at.secs,
                status.last_synced_at.nanos,
            ) + ")\n"@
        },
        None => Seq::empty(),
    }
}

/// One line describing the pull request tracking snapshot, when there is one.
pub fn render_pr_summary(session: &Session) -> (r: String)
    requires
        match session.pr_status {
            Some(status) => in_calendar(status.last_synced_at),
            None => true,
        },
    ensures
        r@ == pr_summary(*session),
{
    broadcast use lemma_concat_assoc;

    let mut out = String::new();
    assert forall|t: Seq<char>| #[trigger] (out@ + t) == t by {
        assert(out@ + t =~= t);
    }
    match &session.pr_status {
        Some(status) => {
            let url: &str = match &session.outcome {
                Some(o) => match &o.pr_url {
                    Some(u) => u.as_str(),
                    None => "-",
                },
                None => "-",
            };
            let (state, checks) = pr_state_columns(session);
            out.append("PR ");
            out.append(url);
            out.append(": ");
            out.append(state);
            out.append(", checks ");
            out.append(checks);
            out.append(" (synced ");
            out.append(status.last_synced_at.to_rfc3339().as_str());
            out.append(")\n");
        },
        None => {},
    }
    out
}

/// What is printed of a session's outcome when its stream has ended.
pub open spec fn outcome_line(session: Session) -> Seq<char> {
    match session.outcome {
        Some(o) => if o.kind@ == "pr_opened"@ && o.pr_url is Some {
            "PR: "@ + o.pr_url->0@ + "\n"@
        } else if o.kind@ == "pr_updated"@ && o.pr_url is Some {
            "PR updated: "@ + o.pr_url->0@ + "\n"@
        } else if o.kind@ == "pushed_no_pr"@ && o.branch is Some {
            "pushed branch "@ + o.branch->0@ + " (no PR)\n"@
        } else if o.kind@ == "uncommitted_changes"@ {
            "warning: agent left uncommitted work; workspace kept on host\n"@
        } else if o.kind@ == "no_changes"@ {
            "no changes made\n"@
        } else {
            Seq::empty()
        },
        None => Seq::empty(),
    }
}

/// Where the tracking of a follow-up goes on.
pub open spec fn parent_line(session: Session) -> Seq<char> {
    match session.parent_session_id {
        Some(parent) => "PR tracking continues on the root session (parent: "@ + parent@ + ")\n"@,
        None => Seq::empty(),
    }
}

fn push_outcome(out: &mut String, session: &Session)
    ensures
        final(out)@ == old(out)@ + outcome_line(*session),
{
    broadcast use {lemma_concat_assoc, lemma_concat_empty};

    match &session.outcome {
        Some(outcome) => {
            let kind: &str = outcome.kind.as_str();
            if same_text(kind, "pr_opened") && outcome.pr_url.is_some() {
                out.append("PR: ");
                out.append(outcome.pr_url.as_ref().unwrap().as_str());
                out.append("\n");
            } else if same_text(kind, "pr_updated") && outcome.pr_url.is_some() {
                out.append("PR updated: ");
                out.append(outcome.pr_url.as_ref().unwrap().as_str());
                out.append("\n");
            } else if same_text(kind, "pushed_no_pr") && outcome.branch.is_some() {
                out.append("pushed branch ");
                out.append(outcome.branch.as_ref().unwrap().as_str());
                out.append(" (no PR)\n");
            } else if same_text(kind, "uncommitted_changes") {
                out.append("warning: agent left uncommitted work; workspace kept on host\n");
            } else if same_text(kind, "no_changes") {
                out.append("no changes made\n");
            }
        },
        None => {},
    }
}

/// What is printed when a watched session's stream has ended.
pub fn render_watch_end(session: &Session) -> (r: String)
    requires
        match session.pr_status {
            Some(status) => in_calendar(status.last_synced_at),
            None => true,
        },
    ensures
        r@ == "\n"@ + outcome_line(*session) + pr_summary(*session) + parent_line(*session),
{
    broadcast use {lemma_concat_assoc, lemma_concat_empty};

    let mut out = "\n".to_owned();
    push_outcome(&mut out, session);
    out.append(render_pr_summary(session).as_str());
    match &session.parent_session_id {
        Some(parent) => {
            out.append("PR tracking continues on the root session (parent: ");
            out.append(parent.as_str());
            out.append(")\n");
        },
        None => {},
    }
    out
}

/// The address of a session's event stream.
pub open spec fn stream_address(base: Seq<char>, id: Seq<char>, after_seq: int) -> Seq<char> {
    base + "/sessions/"@ + id + "/events/stream?after_seq="@ + decimal_int(after_seq)
}

/// The address of a session's event stream.
pub fn stream_url(base_url: &str, session_id: &str, after_seq: i64) -> (r: String)
    ensures
        r@ == stream_address(base_url@, session_id@, after_seq as int),
{
    let mut out = base_url.to_owned();
    out.append("/sessions/");
    out.append(session_id);
    out.append("/events/stream?after_seq=");
    push_chars(&mut out, &to_decimal_signed(after_seq));
    out
}

/// The environment of a new session: the repository when one is named, else
/// the host itself.
pub fn environment_for(repo: Option<String>, base_branch: Option<String>) -> (r: Environment)
    ensures
        match repo {
            Some(_) => r.kind@ == "github_repo"@ && r.repo == repo && r.base_branch == base_branch,
            None => r.kind@ == "self_hosted"@ && r.repo is None && r.base_branch is None,
        },
{
    match repo {
        Some(r) => Environment { kind: "github_repo".to_owned(), repo: Some(r), base_branch },
        None => Environment { kind: "self_hosted".to_owned(), repo: None, base_branch: None },
    }
}

// --- what the reader sees -----------------------------------------------------------

/// The payload is an agent's update: an ACP notification holds it under
/// `update`, a flat event is one itself.
pub open spec fn holds_update(payload: JsonView, update: JsonView) -> bool {
    &&& !(member(payload, "permissionRequest"@) is Object)
    &&& !(member(payload, "type"@) is Text)
    &&& update == member(payload, "update"@) && update is Object || update == payload && !(member(
        payload,
        "update"@,
    ) is Object)
}

/// A message is printed as the agent wrote it: for each of its chunks exactly
/// the chunk's text, so that the chunks one after another are the message.
pub proof fn messages_are_printed_verbatim(
    payload: &Json,
    printed: String,
    update: JsonView,
    text: Seq<char>,
)
    requires
        call_ensures(render_payload, (payload,), printed),
        holds_update(payload@, update),
        member(update, "sessionUpdate"@) == JsonView::Text("agent_message_chunk"@),
    ensures
        member(member(update, "content"@), "text"@) == JsonView::Text(text) ==> printed@ == text,
        !(member(member(update, "content"@), "text"@) is Text) ==> printed@.len() == 0,
{
}

/// Each tool call is announced on a line of its own, by its title when it has
/// one; thoughts, progress of tools and plans print nothing, and any other
/// update its name.
pub proof fn updates_are_announced(
    payload: &Json,
    printed: String,
    update: JsonView,
    kind: Seq<char>,
    title: Seq<char>,
)
    requires
        call_ensures(render_payload, (payload,), printed),
        holds_update(payload@, update),
    ensures
        member(update, "sessionUpdate"@) == JsonView::Text("tool_call"@) ==> {
            &&& member(update, "title"@) == JsonView::Text(title) ==> printed@ == "\n[tool] "@
                + title + "\n"@
            &&& !(member(update, "title"@) is Text) ==> printed@ == "\n[tool] tool call\n"@
        },
        member(update, "sessionUpdate"@) == JsonView::Text(kind) && seq![
            "agent_thought_chunk"@,
            "tool_call_update"@,
            "plan"@,
        ].contains(kind) ==> printed@.len() == 0,
        member(update, "sessionUpdate"@) == JsonView::Text(kind) && !seq![
            "agent_message_chunk"@,
            "tool_call"@,
            "agent_thought_chunk"@,
            "tool_call_update"@,
            "plan"@,
        ].contains(kind) ==> printed@ == "\n["@ + kind + "]\n"@,
        !(member(update, "sessionUpdate"@) is Text) ==> printed@.len() == 0,
{
    reveal_strlit("tool_call");
    reveal_strlit("agent_message_chunk");
    reveal_strlit("agent_thought_chunk");
    reveal_strlit("tool_call_update");
    reveal_strlit("plan");
    assert("tool_call"@.len() != "agent_message_chunk"@.len());
    assert("agent_thought_chunk"@[6] != "agent_message_chunk"@[6]);
    assert("tool_call_update"@.len() != "agent_message_chunk"@.len());
    assert("tool_call_update"@.len() != "tool_call"@.len());
    assert("agent_thought_chunk"@.len() != "tool_call"@.len());
    assert("plan"@.len() != "tool_call"@.len());
    assert("plan"@.len() != "agent_message_chunk"@.len());
    let quiet = seq!["agent_thought_chunk"@, "tool_call_update"@, "plan"@];
    let known = seq![
        "agent_message_chunk"@,
        "tool_call"@,
        "agent_thought_chunk"@,
        "tool_call_update"@,
        "plan"@,
    ];
    assert(known[0] == "agent_message_chunk"@ && known[1] == "tool_call"@ && known[2]
        == "agent_thought_chunk"@ && known[3] == "tool_call_update"@ && known[4] == "plan"@);
    if quiet.contains(kind) {
        let i = choose|i: int| 0 <= i < quiet.len() && quiet[i] == kind;
        assert(0 <= i < 3);
    }
    reveal_strlit("\n[tool] ");
    reveal_strlit("tool call");
    reveal_strlit("\n");
    reveal_strlit("\n[tool] tool call\n");
    assert("\n[tool] "@ + "tool call"@ + "\n"@ =~= "\n[tool] tool call\n"@);
}

/// A change of the pull request or of its checks is shown with the state
/// before and the state after; a permission that was given is shown so.
pub proof fn changes_show_before_and_after(
    payload: &Json,
    printed: String,
    kind: Seq<char>,
    from: Seq<char>,
    to: Seq<char>,
)
    requires
        call_ensures(render_payload, (payload,), printed),
    ensures
        member(payload@, "permissionRequest"@) is Object ==> printed@
            == "\n[permission auto-approved]\n"@,
        !(member(payload@, "permissionRequest"@) is Object) && member(payload@, "type"@)
            == JsonView::Text(kind) && (member(payload@, "from"@) == JsonView::Text(from) || !(
        member(payload@, "from"@) is Text) && from == "unknown"@) && (member(payload@, "to"@)
            == JsonView::Text(to) || !(member(payload@, "to"@) is Text) && to == "none"@) ==> {
            &&& kind == "pr_state_changed"@ ==> printed@ == "\n[pr] "@ + from + " -> "@ + to
                + "\n"@
            &&& kind == "checks_state_changed"@ ==> printed@ == "\n[checks] "@ + from + " -> "@
                + to + "\n"@
            &&& kind != "pr_state_changed"@ && kind != "checks_state_changed"@ ==> printed@
                == "\n["@ + kind + "]\n"@
        },
{
    reveal_strlit("pr_state_changed");
    reveal_strlit("checks_state_changed");
    assert("pr_state_changed"@.len() != "checks_state_changed"@.len());
}

/// The end of a stream is shown with its state, which is the pull request's
/// when that is merged or closed; any other event shows its payload.
pub proof fn stream_events_show_their_payload(
    event: &StreamEvent,
    parsed: &Option<Json>,
    printed: String,
)
    requires
        call_ensures(render_stream_event, (event, parsed), printed),
    ensures
        event.name@ == "done"@ && (event.data@ == "merged"@ || event.data@ == "closed"@)
            ==> printed@ == "\n── pr "@ + event.data@ + " ──\n"@,
        event.name@ == "done"@ && event.data@ != "merged"@ && event.data@ != "closed"@ ==> printed@
            == "\n── session "@ + event.data@ + " ──\n"@,
        event.name@ != "done"@ && *parsed is None ==> printed@.len() == 0,
        event.name@ != "done"@ ==> forall|payload: &Json, shown: String|
            (*parsed matches Some(value) && payload@ == member(value@, "payload"@))
                && #[trigger] call_ensures(render_payload, (payload,), shown) ==> printed@
                == shown@,
{
}

/// An event's lines are read one by one: a `data` line adds its value without
/// the blanks before it, an `event` line sets the name, and any other line
/// changes nothing.
pub proof fn stream_lines_add_up(lines: Seq<Seq<char>>, value: Seq<char>, other: Seq<char>)
    requires
        !starts(other, "event:"@),
        !starts(other, "data:"@),
    ensures
        sse_fields(Seq::<Seq<char>>::empty()) == ("message"@, Seq::<char>::empty()),
        sse_fields(lines.push("data:"@ + value)) == (
            sse_fields(lines).0,
            sse_fields(lines).1 + trimmed_start(value),
        ),
        sse_fields(lines.push("event:"@ + value)) == (trimmed(value), sse_fields(lines).1),
        sse_fields(lines.push(other)) == sse_fields(lines),
{
    reveal_strlit("event:");
    reveal_strlit("data:");
    let data = "data:"@ + value;
    let named = "event:"@ + value;
    prefixes_come_off(data, "data:"@, value);
    prefixes_come_off(named, "event:"@, value);
    assert(!starts(data, "event:"@)) by {
        if starts(data, "event:"@) {
            assert(data[0] == data.take(6)[0]);
        }
    }
    assert(lines.push(data).drop_last() =~= lines);
    assert(lines.push(named).drop_last() =~= lines);
    assert(lines.push(other).drop_last() =~= lines);
}

/// The events of a stream, each with the blank line that ends it.
pub open spec fn ended_blocks(blocks: Seq<Seq<char>>) -> Seq<char>
    decreases blocks.len(),
{
    if blocks.len() == 0 {
        Seq::empty()
    } else {
        blocks[0] + seq!['\n', '\n'] + ended_blocks(blocks.skip(1))
    }
}

/// Two newlines stand at this place.
pub open spec fn blank_line_at(s: Seq<char>, i: int) -> bool {
    0 <= i && i + 1 < s.len() && s[i] == '\n' && s[i + 1] == '\n'
}

/// An event with its blank line has one at this place.
pub open spec fn ends_at(block: Seq<char>, i: int) -> bool {
    blank_line_at(block.push('\n').push('\n'), i)
}

/// Nothing of a stream is lost or made up: the events that a chunk completes,
/// each with its blank line, and what is kept for later are what was kept and
/// the chunk. An event ends at the first blank line, and what is kept has
/// none.
pub proof fn streams_are_cut_at_blank_lines(
    buffer: &mut StreamBuffer,
    chunk: &[u8],
    events: Vec<String>,
)
    requires
        call_ensures(StreamBuffer::feed, (buffer, chunk), events),
    ensures
        ended_blocks(string_views(events@)) + final(buffer)@ == old(buffer)@ + utf8_text(chunk@),
        forall|i: int| !#[trigger] blank_line_at(final(buffer)@, i),
        forall|k: int, i: int|
            0 <= k < events@.len() && 0 <= i < events@[k]@.len() ==> !#[trigger] ends_at(
                events@[k]@,
                i,
            ),
{
    let s = old(buffer)@ + utf8_text(chunk@);
    lemma_blocks(s);
    let views = string_views(events@);
    assert forall|k: int, i: int|
        0 <= k < events@.len() && 0 <= i < events@[k]@.len() implies !#[trigger] ends_at(
        events@[k]@,
        i,
    ) by {
        assert(views[k] == events@[k]@);
    }
}

#[verifier::spinoff_prover]
#[verifier::rlimit(40)]
proof fn lemma_blocks(s: Seq<char>)
    ensures
        ended_blocks(stream_blocks(s).0) + stream_blocks(s).1 == s,
        forall|i: int| !#[trigger] blank_line_at(stream_blocks(s).1, i),
        forall|k: int, i: int|
            0 <= k < stream_blocks(s).0.len() && 0 <= i < stream_blocks(s).0[k].len()
                ==> !#[trigger] ends_at(stream_blocks(s).0[k], i),
    decreases s.len(),
{
    let i = boundary(s);
    lemma_boundary_facts(s);
    let (blocks, left) = stream_blocks(s);
    if i < s.len() {
        let head = s.take(i);
        let tail = s.skip(i + 2);
        lemma_blocks(tail);
        let more = stream_blocks(tail).0;
        assert(blocks == seq![head] + more);
        assert(blocks.skip(1) =~= more);
        assert(s =~= head + seq!['\n', '\n'] + tail);
        assert(ended_blocks(blocks) + left =~= head + seq!['\n', '\n'] + (ended_blocks(more)
            + left));
        assert forall|k: int, j: int|
            0 <= k < blocks.len() && 0 <= j < blocks[k].len() implies !#[trigger] ends_at(
            blocks[k],
            j,
        ) by {
            if k == 0 {
                let ended = head.push('\n').push('\n');
                assert(ended[j] == s[j]);
                assert(ended[j + 1] == s[j + 1]);
            } else {
                assert(blocks[k] == more[k - 1]);
            }
        }
    } else {
        assert(ended_blocks(blocks) + left =~= s);
        assert forall|j: int| !#[trigger] blank_line_at(left, j) by {
            if blank_line_at(left, j) {
                assert(!(s[j] == '\n' && s[j + 1] == '\n'));
            }
        }
    }
}

/// A column holds its text and blanks behind it, at least one, up to the
/// column's width.
pub proof fn columns_are_padded(s: Seq<char>, width: int)
    requires
        0 <= width,
    ensures
        starts(column(s, width), s),
        column(s, width).len() == if s.len() < width {
            width + 1
        } else {
            s.len() as int + 1
        },
        forall|i: int| s.len() <= i < column(s, width).len() ==> #[trigger] column(s, width)[i]
            == ' ',
{
    reveal_strlit(" ");
    assert(column(s, width).take(s.len() as int) =~= s);
}

/// The table has one row for each session, in their order: a session more is a
/// row more at the end, which shows its id, status, outcome, pull request,
/// checks and when it was created.
#[verifier::spinoff_prover]
#[verifier::rlimit(40)]
pub proof fn every_session_has_its_row(
    sessions: &[Session],
    more: &[Session],
    table: String,
    longer: String,
    last: Session,
)
    requires
        call_ensures(render_session_table, (sessions,), table),
        call_ensures(render_session_table, (more,), longer),
        more@ == sessions@.push(last),
    ensures
        longer@ == table@ + (column(last.id@, 32) + column(status_name(last.status), 10) + column(
            match last.outcome {
                Some(o) => o.kind@,
                None => "-"@,
            },
            20,
        ) + column(
            match last.pr_status {
                Some(s) => pr_state_name(s.state),
                None => "-"@,
            },
            18,
        ) + column(
            match last.pr_status {
                Some(s) => match s.checks {
                    Some(c) => checks_name(c),
                    None => "-"@,
                },
                None => "-"@,
            },
            8,
        ) + rfc3339_text(last.created_at.secs, last.created_at.nanos) + "\n"@),
        sessions@.len() == 0 ==> table@ == column("ID"@, 32) + column("STATUS"@, 10) + column(
            "OUTCOME"@,
            20,
        ) + column("PR"@, 18) + column("CHECKS"@, 8) + "CREATED\n"@,
{
    assert(more@.drop_last() =~= sessions@);
    lemma_concat_assoc(table_heading(), table_rows(sessions@), table_row(last));
    if sessions@.len() == 0 {
        lemma_concat_empty(table_heading());
    }
}

/// When a stream has ended, the reader is told what came of the session: its
/// pull request, its pushed branch, work that was left behind, or that nothing
/// changed; then how its pull request stands, and where a follow-up's tracking
/// goes on.
#[verifier::spinoff_prover]
#[verifier::rlimit(40)]
pub proof fn the_end_tells_the_outcome(session: &Session, printed: String, summary: String)
    requires
        call_ensures(render_watch_end, (session,), printed),
        call_ensures(render_pr_summary, (session,), summary),
    ensures
        session.pr_status is None ==> summary@.len() == 0,
        session.pr_status matches Some(status) ==> summary@ == "PR "@ + (match session.outcome {
            Some(o) => match o.pr_url {
                Some(u) => u@,
                None => "-"@,
            },
            None => "-"@,
        }) + ": "@ + pr_state_name(status.state) + ", checks "@ + (match status.checks {
            Some(c) => checks_name(c),
            None => "-"@,
        }) + " (synced "@ + rfc3339_text(status.last_synced_at.secs, status.last_synced_at.nanos)
            + ")\n"@,
        ({
            let end = summary@ + match session.parent_session_id {
                Some(parent) => "PR tracking continues on the root session (parent: "@ + parent@
                    + ")\n"@,
                None => Seq::empty(),
            };
            &&& session.outcome is None ==> printed@ == "\n"@ + end
            &&& session.outcome matches Some(o) ==> {
                &&& o.kind@ == "pr_opened"@ && o.pr_url is Some ==> printed@ == "\n"@ + ("PR: "@
                    + o.pr_url->0@ + "\n"@) + end
                &&& o.kind@ == "pr_updated"@ && o.pr_url is Some ==> printed@ == "\n"@ + (
                "PR updated: "@ + o.pr_url->0@ + "\n"@) + end
                &&& o.kind@ == "pushed_no_pr"@ && o.branch is Some ==> printed@ == "\n"@ + (
                "pushed branch "@ + o.branch->0@ + " (no PR)\n"@) + end
                &&& o.kind@ == "uncommitted_changes"@ ==> printed@ == "\n"@
                    + "warning: agent left uncommitted work; workspace kept on host\n"@ + end
                &&& o.kind@ == "no_changes"@ ==> printed@ == "\n"@ + "no changes made\n"@ + end
            }
        }),
{
    broadcast use {lemma_concat_assoc, lemma_concat_empty};

    reveal_strlit("pr_opened");
    reveal_strlit("pr_updated");
    reveal_strlit("pushed_no_pr");
    reveal_strlit("uncommitted_changes");
    reveal_strlit("no_changes");
    assert("pr_opened"@.len() == 9 && "pr_updated"@.len() == 10 && "pushed_no_pr"@.len() == 12
        && "uncommitted_changes"@.len() == 19 && "no_changes"@.len() == 10);
    assert("pr_updated"@[0] != "no_changes"@[0]);
}

/// A stream is asked for at the session's own address, after the number that
/// was seen last.
pub proof fn streams_continue_after_the_last_number(
    base: &str,
    id: &str,
    after_seq: i64,
    url: String,
)
    requires
        call_ensures(stream_url, (base, id, after_seq), url),
    ensures
        url@ == base@ + "/sessions/"@ + id@ + "/events/stream?after_seq="@ + decimal_int(
            after_seq as int,
        ),
{
}

/// A session runs in a clone exactly when a repository is named.
pub proof fn a_repository_asks_for_a_clone(
    repo: Option<String>,
    base_branch: Option<String>,
    environment: Environment,
)
    requires
        call_ensures(environment_for, (repo, base_branch), environment),
    ensures
        environment.repo == repo,
        repo is Some ==> environment.kind@ == "github_repo"@ && environment.base_branch
            == base_branch,
        repo is None ==> environment.kind@ == "self_hosted"@ && environment.base_branch is None,
{
}

/// One event of a stream is printed as its name and data are, and its data is
/// read as JSON.
pub proof fn raw_events_are_printed_as_they_read(
    raw: &str,
    printed: String,
    event: StreamEvent,
    data: &str,
    parsed: Option<Json>,
    as_read: String,
    fresh: StreamBuffer,
)
    requires
        call_ensures(render_sse_event, (raw,), printed),
        call_ensures(parse_sse_event, (raw,), event),
        data@ == event.data@,
        call_ensures(parse_json, (data,), parsed),
        call_ensures(render_stream_event, (&event, &parsed), as_read),
        call_ensures(StreamBuffer::new, (), fresh),
    ensures
        printed@ == as_read@,
        fresh@.len() == 0,
{
}

/// What a raw event is read as: its lines add up, one after another.
pub proof fn raw_events_are_read_line_by_line(raw: &str, event: StreamEvent)
    requires
        call_ensures(parse_sse_event, (raw,), event),
    ensures
        (event.name@, event.data@) == sse_fields(lines_of(raw@)),
{
}

/// A session's pull request and checks are shown by name, or by a dash.
pub proof fn pull_requests_are_shown_by_name(
    session: &Session,
    r: (&'static str, &'static str),
    state: PrState,
    state_text: &'static str,
    checks: ChecksState,
    checks_text: &'static str,
)
    requires
        call_ensures(pr_state_columns, (session,), r),
        call_ensures(PrState::as_str, (&state,), state_text),
        call_ensures(ChecksState::as_str, (&checks,), checks_text),
    ensures
        session.pr_status is None ==> r.0@ == "-"@ && r.1@ == "-"@,
        session.pr_status matches Some(s) ==> (s.state == state ==> r.0@ == state_text@) && (
        s.checks == Some(checks) ==> r.1@ == checks_text@) && (s.checks is None ==> r.1@ == "-"@),
{
}

} // verus!
