//! Runs a session by spawning an ACP-capable agent as a child process and
//! driving one prompt turn over stdio: the command, what the agent is told,
//! how permission requests are answered, and what the turn comes to.

use vstd::prelude::*;
use vstd::string::*;

use crate::json::{object1, text_value, with_member, Json, JsonView};
use crate::redact::REDACTED;
use crate::runtime::RunOutcome;
use crate::text::{
    chars_of, first_index, lemma_first_index, replace, replaced, replacing_goes_from_left_to_right,
    replacing_nothing, same_text, split_once, starts, text_of,
};

verus! {

/// How long a cancelled agent may take to acknowledge, in seconds.
pub const CANCEL_GRACE_SECS: u64 = 10;

/// A harness this host can run, and the command that runs it.
#[derive(Debug, PartialEq, Eq)]
pub struct Harness {
    pub name: String,
    pub command: String,
}

impl Harness {
    /// Reads `name=command`, as the host is configured; `None` without an `=`.
    pub fn parse(entry: &str) -> (r: Option<Harness>)
        ensures
            match r {
                Some(h) => entry@.contains('=') && entry@ == h.name@ + seq!['='] + h.command@
                    && !h.name@.contains('='),
                None => !entry@.contains('='),
            },
    {
        let chars = chars_of(entry);
        proof {
            lemma_first_index(entry@, '=');
        }
        match split_once(&chars, '=') {
            Some((name, command)) => {
                let h = Harness { name: text_of(name), command: text_of(command) };
                proof {
                    let i = first_index(entry@, '=');
                    assert(entry@ =~= h.name@ + seq!['='] + h.command@);
                    assert(entry@[i] == '=');
                    assert forall|k: int| 0 <= k < h.name@.len() implies h.name@[k] != '=' by {
                        assert(h.name@[k] == entry@[k]);
                    }
                }
                Some(h)
            },
            None => None,
        }
    }
}

/// The command of the first harness with that name.
pub open spec fn command_of(known: Seq<Harness>, name: Seq<char>) -> Option<Seq<char>>
    decreases known.len(),
{
    if known.len() == 0 {
        None
    } else if known[0].name@ == name {
        Some(known[0].command@)
    } else {
        command_of(known.skip(1), name)
    }
}

/// The command that runs a harness.
///
/// The harness → command map is host-side config by design (the server never
/// resolves commands). The returned string may embed `gh_token` and must never
/// be logged.
pub fn resolve_command(harness: &str, known: &[Harness], gh_token: Option<&str>) -> (r: Result<
    String,
    String,
>)
    ensures
        match command_of(known@, harness@) {
            Some(base) => r matches Ok(command) && command@ == match gh_token {
                Some(token) => "env GH_TOKEN="@ + token@ + " "@ + base,
                None => base,
            },
            None => r matches Err(e) && e@ == "unknown harness: "@ + harness@,
        },
{
    let mut i: usize = 0;
    assert(known@.skip(0) =~= known@);
    while i < known.len()
        invariant
            i <= known.len(),
            command_of(known@, harness@) == command_of(known@.skip(i as int), harness@),
        decreases known.len() - i,
    {
        assert(known@.skip(i as int).skip(1) =~= known@.skip(i + 1));
        if same_text(known[i].name.as_str(), harness) {
            let base = known[i].command.as_str();
            return match gh_token {
                Some(token) => {
                    let mut out = "env GH_TOKEN=".to_owned();
                    out.append(token);
                    out.append(" ");
                    out.append(base);
                    Ok(out)
                },
                None => Ok(base.to_owned()),
            };
        }
        i = i + 1;
    }
    let mut out = "unknown harness: ".to_owned();
    out.append(harness);
    Err(out)
}

/// The text with every occurrence of the secret replaced by the marker.
pub open spec fn scrubbed(text: Seq<char>, secret: Option<Seq<char>>) -> Seq<char> {
    match secret {
        Some(s) => if s.len() > 0 {
            replaced(text, s, REDACTED@)
        } else {
            text
        },
        None => text,
    }
}

/// Strip the credential from error text before it is logged; the agent command
/// (and the child's stderr) can embed the GH token.
pub fn redact(text: String, secret: Option<&str>) -> (r: String)
    ensures
        r@ == scrubbed(
            text@,
            match secret {
                Some(s) => Some(s@),
                None => None,
            },
        ),
{
    match secret {
        Some(secret) => {
            let wanted: Vec<char> = chars_of(secret);
            if wanted.len() > 0 {
                text_of(&replace(&chars_of(text.as_str()), &wanted, &chars_of(REDACTED)))
            } else {
                text
            }
        },
        None => text,
    }
}

/// `p` occurs in `s` at position `i`.
pub open spec fn occurs_at(s: Seq<char>, p: Seq<char>, i: int) -> bool {
    0 <= i && i + p.len() <= s.len() && s.subrange(i, i + p.len()) == p
}

/// `p`, placed `k` characters behind the start of `w` (before it when `k` is
/// negative), differs from `w` somewhere.
pub open spec fn differs_at(p: Seq<char>, w: Seq<char>, k: int) -> bool {
    exists|j: int| #![trigger p[j]] 0 <= j < p.len() && 0 <= k + j < w.len() && p[j] != w[k + j]
}

/// However `p` and `w` are laid over one another, they differ.
pub open spec fn disentangled(p: Seq<char>, w: Seq<char>) -> bool {
    forall|k: int| -p.len() < k < w.len() ==> #[trigger] differs_at(p, w, k)
}

proof fn lemma_replaced_suffix(t: Seq<char>, p: Seq<char>, w: Seq<char>, m: int)
    requires
        p.len() > 0,
        w.len() > 0,
        disentangled(p, w),
        1 <= m <= p.len(),
        starts(replaced(t, p, w), p.skip(m)),
    ensures
        starts(t, p.skip(m)),
    decreases t.len(),
{
    let q = p.skip(m);
    let r = replaced(t, p, w);
    if q.len() == 0 {
        assert(t.take(0) =~= q);
    } else if t.len() == 0 {
    } else if starts(t, p) {
        assert(differs_at(p, w, -m));
        let j = choose|j: int|
            #![trigger p[j]]
            0 <= j < p.len() && 0 <= -m + j < w.len() && p[j] != w[-m + j];
        assert(r[j - m] == w[j - m]);
        assert(r.take(q.len() as int)[j - m] == q[j - m]);
    } else {
        let rest = replaced(t.skip(1), p, w);
        assert(r.take(q.len() as int)[0] == q[0]);
        assert(r[0] == t[0]);
        let tail = p.skip(m + 1);
        assert(q.skip(1) =~= tail);
        assert(rest.take(tail.len() as int) =~= tail) by {
            assert forall|i: int| 0 <= i < tail.len() implies rest[i] == tail[i] by {
                assert(r.take(q.len() as int)[i + 1] == q[i + 1]);
            }
        }
        lemma_replaced_suffix(t.skip(1), p, w, m + 1);
        assert(t.take(q.len() as int) =~= q) by {
            assert forall|i: int| 0 <= i < q.len() implies t[i] == q[i] by {
                if i > 0 {
                    assert(t.skip(1).take(tail.len() as int)[i - 1] == tail[i - 1]);
                }
            }
        }
    }
}

/// The secret does not survive: no occurrence of it is left in the scrubbed
/// text. A secret that can be laid over the marker without differing from it
/// could reappear around one.
pub proof fn secret_is_gone(text: Seq<char>, secret: Seq<char>, i: int)
    requires
        secret.len() > 0,
        disentangled(secret, REDACTED@),
    ensures
        !occurs_at(scrubbed(text, Some(secret)), secret, i),
    decreases text.len(),
{
    reveal_strlit("[redacted]");
    let p = secret;
    let w = REDACTED@;
    let r = replaced(text, p, w);
    if occurs_at(r, p, i) {
        if text.len() == 0 {
        } else if starts(text, p) {
            let t = text.skip(p.len() as int);
            let rest = replaced(t, p, w);
            if i < w.len() {
                assert(differs_at(p, w, i));
                let j = choose|j: int|
                    #![trigger p[j]]
                    0 <= j < p.len() && 0 <= i + j < w.len() && p[j] != w[i + j];
                assert(r.subrange(i, i + p.len())[j] == p[j]);
                assert(r[i + j] == w[i + j]);
            } else {
                secret_is_gone(t, p, i - w.len());
                assert(rest.subrange(i - w.len(), i - w.len() + p.len()) =~= r.subrange(
                    i,
                    i + p.len(),
                ));
            }
        } else {
            let t = text.skip(1);
            let rest = replaced(t, p, w);
            if i > 0 {
                secret_is_gone(t, p, i - 1);
                assert(rest.subrange(i - 1, i - 1 + p.len()) =~= r.subrange(i, i + p.len()));
            } else {
                let tail = p.skip(1);
                assert(rest.take(tail.len() as int) =~= tail) by {
                    assert forall|k: int| 0 <= k < tail.len() implies rest[k] == tail[k] by {
                        assert(r.subrange(0, p.len() as int)[k + 1] == p[k + 1]);
                    }
                }
                lemma_replaced_suffix(t, p, w, 1);
                assert(r.subrange(0, p.len() as int)[0] == p[0]);
                assert(text.take(p.len() as int) =~= p) by {
                    assert forall|k: int| 0 <= k < p.len() implies text[k] == p[k] by {
                        if k > 0 {
                            assert(t.take(tail.len() as int)[k - 1] == tail[k - 1]);
                        }
                    }
                }
            }
        }
    }
}

/// An ordinary token cannot be laid over the marker: it holds no square
/// bracket and is no part of the word between the marker's brackets.
pub proof fn ordinary_tokens_are_disentangled(secret: Seq<char>)
    requires
        secret.len() > 0,
        !secret.contains('['),
        !secret.contains(']'),
        forall|i: int| !occurs_at("redacted"@, secret, i),
    ensures
        disentangled(secret, REDACTED@),
{
    reveal_strlit("[redacted]");
    reveal_strlit("redacted");
    let w = REDACTED@;
    let word = "redacted"@;
    assert forall|k: int| -secret.len() < k < w.len() implies #[trigger] differs_at(
        secret,
        w,
        k,
    ) by {
        if k <= 0 {
            let j = -k;
            assert(secret[j] != w[k + j]) by {
                if secret[j] == '[' {
                    assert(secret.contains('['));
                }
            }
        } else if k + secret.len() > 9 {
            let j = 9 - k;
            assert(secret[j] != w[k + j]) by {
                if secret[j] == ']' {
                    assert(secret.contains(']'));
                }
            }
        } else {
            let part = word.subrange(k - 1, k - 1 + secret.len());
            assert(!occurs_at(word, secret, k - 1));
            if forall|j: int| 0 <= j < secret.len() ==> #[trigger] secret[j] == part[j] {
                assert(part =~= secret);
            }
            let j = choose|j: int| 0 <= j < secret.len() && #[trigger] secret[j] != part[j];
            assert(part[j] == word[k - 1 + j]);
            assert(word[k - 1 + j] == w[k + j]) by {
                assert(word =~= w.subrange(1, 9));
                assert(w.subrange(1, 9)[k - 1 + j] == w[k + j]);
            }
        }
    }
}

/// What the agent is told: the instructions, when there are any, before the
/// input.
pub open spec fn prompt(instructions: Seq<char>, input: Seq<char>) -> Seq<char> {
    if instructions.len() == 0 {
        input
    } else {
        instructions + "\n\n"@ + input
    }
}

/// What the agent is told.
pub fn prompt_text(instructions: &str, input: &str) -> (r: String)
    ensures
        r@ == prompt(instructions@, input@),
{
    if instructions.is_empty() {
        input.to_owned()
    } else {
        let mut out = instructions.to_owned();
        out.append("\n\n");
        out.append(input);
        out
    }
}

/// The event that records a permission request and its answer.
pub open spec fn permission_record(request: JsonView, approved: Option<Seq<char>>) -> JsonView {
    JsonView::Object(
        seq![
            ("permissionRequest"@, request),
            (
                "autoApproved"@,
                match approved {
                    Some(id) => JsonView::Text(id),
                    None => JsonView::Null,
                },
            ),
        ],
    )
}

/// The answer to a permission request.
#[derive(Debug)]
pub struct PermissionAnswer {
    /// The option to select; `None` cancels the request.
    pub selected: Option<String>,
    /// The event that records the request and the answer.
    pub event: Json,
}

/// Answers a permission request. v1 policy: auto-approve everything with the
/// first option, recording the request and the auto-response as an event for
/// an audit trail.
pub fn answer_permission(option_ids: &[String], request: Json) -> (r: PermissionAnswer)
    ensures
        match r.selected {
            Some(id) => option_ids@.len() > 0 && id@ == option_ids@[0]@ && r.event@
                == permission_record(request@, Some(id@)),
            None => option_ids@.len() == 0 && r.event@ == permission_record(request@, None),
        },
{
    if option_ids.len() > 0 {
        let id: String = option_ids[0].clone();
        let event: Json = with_member(
            object1("permissionRequest", request),
            "autoApproved",
            text_value(id.as_str()),
        );
        assert(event@->Object_0 =~= permission_record(request@, Some(id@))->Object_0);
        PermissionAnswer { selected: Some(id), event }
    } else {
        let event: Json = with_member(
            object1("permissionRequest", request),
            "autoApproved",
            Json::Null,
        );
        assert(event@->Object_0 =~= permission_record(request@, None)->Object_0);
        PermissionAnswer { selected: None, event }
    }
}

/// Why an agent stopped.
#[derive(Debug)]
pub enum AgentStop {
    /// It was told to.
    Cancelled,
    /// For this reason.
    Reason(String),
}

/// Where a prompt turn stands.
#[derive(Debug, Clone, Copy, PartialEq, Eq, Structural)]
pub enum TurnStage {
    /// The protocol is being agreed on.
    Initializing,
    /// The agent opens a session in the workspace.
    OpeningSession,
    /// The agent works on its prompt.
    Prompting,
    /// The agent was told to stop and has some time to acknowledge.
    Cancelling,
    /// The turn is over.
    Ended,
}

/// What happens during a turn.
#[derive(Debug)]
pub enum TurnEvent {
    /// The agent answered the initialization.
    Initialized(Result<(), String>),
    /// The agent answered the request for a session.
    SessionOpened(Result<(), String>),
    /// The agent answered the prompt.
    Responded(Result<AgentStop, String>),
    /// The run is to be cancelled.
    CancelRequested,
    /// The time to acknowledge a cancellation is over.
    GraceElapsed,
}

/// What a turn asks for.
#[derive(Debug)]
pub enum TurnAction {
    /// Initialize the protocol.
    Initialize,
    /// Open a session in the workspace.
    OpenSession,
    /// Send the prompt; await its answer or a cancellation.
    Prompt,
    /// Tell the agent to stop; await the prompt's answer, for
    /// [`CANCEL_GRACE_SECS`] at most.
    Cancel,
    /// Close the connection, which ends the agent. This is what the turn came
    /// to, or the error that ended it.
    Close(Result<RunOutcome, String>),
}

/// The stage waits for this event.
pub open spec fn turn_expects(stage: TurnStage, event: TurnEvent) -> bool {
    match stage {
        TurnStage::Initializing => event is Initialized,
        TurnStage::OpeningSession => event is SessionOpened,
        TurnStage::Prompting => event is Responded || event is CancelRequested,
        TurnStage::Cancelling => event is Responded || event is GraceElapsed,
        TurnStage::Ended => false,
    }
}

/// What a turn comes to when the agent stopped.
pub open spec fn stopped(stop: AgentStop) -> RunOutcome {
    match stop {
        AgentStop::Cancelled => RunOutcome::Cancelled,
        AgentStop::Reason(reason) => RunOutcome::Completed { stop_reason: reason },
    }
}

/// Where a turn stands after an event, and what it asks for.
pub open spec fn turn_next(stage: TurnStage, event: TurnEvent) -> (TurnStage, TurnAction) {
    match (stage, event) {
        (TurnStage::Initializing, TurnEvent::Initialized(Ok(_))) => (
            TurnStage::OpeningSession,
            TurnAction::OpenSession,
        ),
        (TurnStage::OpeningSession, TurnEvent::SessionOpened(Ok(_))) => (
            TurnStage::Prompting,
            TurnAction::Prompt,
        ),
        (TurnStage::Initializing, TurnEvent::Initialized(Err(error))) => (
            TurnStage::Ended,
            TurnAction::Close(Err(error)),
        ),
        (TurnStage::OpeningSession, TurnEvent::SessionOpened(Err(error))) => (
            TurnStage::Ended,
            TurnAction::Close(Err(error)),
        ),
        (TurnStage::Prompting, TurnEvent::CancelRequested) => (
            TurnStage::Cancelling,
            TurnAction::Cancel,
        ),
        (_, TurnEvent::Responded(Ok(stop))) => (
            TurnStage::Ended,
            TurnAction::Close(Ok(stopped(stop))),
        ),
        (TurnStage::Prompting, TurnEvent::Responded(Err(error))) => (
            TurnStage::Ended,
            TurnAction::Close(Err(error)),
        ),
        _ => (TurnStage::Ended, TurnAction::Close(Ok(RunOutcome::Cancelled))),
    }
}

/// Begins a turn.
pub fn turn_begin() -> (r: (TurnStage, TurnAction))
    ensures
        r == (TurnStage::Initializing, TurnAction::Initialize),
{
    (TurnStage::Initializing, TurnAction::Initialize)
}

/// Goes on with a turn after an event. A turn that is cancelled ends as
/// cancelled when the agent does not acknowledge in time, or fails to answer.
pub fn turn_step(stage: TurnStage, event: TurnEvent) -> (r: (TurnStage, TurnAction))
    requires
        turn_expects(stage, event),
    ensures
        r == turn_next(stage, event),
{
    match (stage, event) {
        (TurnStage::Initializing, TurnEvent::Initialized(answer)) => match answer {
            Ok(_) => (TurnStage::OpeningSession, TurnAction::OpenSession),
            Err(error) => (TurnStage::Ended, TurnAction::Close(Err(error))),
        },
        (TurnStage::OpeningSession, TurnEvent::SessionOpened(answer)) => match answer {
            Ok(_) => (TurnStage::Prompting, TurnAction::Prompt),
            Err(error) => (TurnStage::Ended, TurnAction::Close(Err(error))),
        },
        (TurnStage::Prompting, TurnEvent::CancelRequested) => (
            TurnStage::Cancelling,
            TurnAction::Cancel,
        ),
        (_, TurnEvent::Responded(Ok(stop))) => {
            let outcome: RunOutcome = match stop {
                AgentStop::Cancelled => RunOutcome::Cancelled,
                AgentStop::Reason(reason) => RunOutcome::Completed { stop_reason: reason },
            };
            (TurnStage::Ended, TurnAction::Close(Ok(outcome)))
        },
        (TurnStage::Prompting, TurnEvent::Responded(Err(error))) => (
            TurnStage::Ended,
            TurnAction::Close(Err(error)),
        ),
        _ => (TurnStage::Ended, TurnAction::Close(Ok(RunOutcome::Cancelled))),
    }
}

/// How many events a turn still waits for, at most.
pub open spec fn turn_rank(stage: TurnStage) -> int {
    match stage {
        TurnStage::Initializing => 4,
        TurnStage::OpeningSession => 3,
        TurnStage::Prompting => 2,
        TurnStage::Cancelling => 1,
        TurnStage::Ended => 0,
    }
}

/// Every event brings a turn closer to its end, and a turn is over exactly
/// when it closes the connection.
pub proof fn turns_end(stage: TurnStage, event: TurnEvent)
    requires
        turn_expects(stage, event),
    ensures
        ({
            let (next, action) = turn_next(stage, event);
            &&& 0 <= turn_rank(next) < turn_rank(stage)
            &&& next == TurnStage::Ended <==> action is Close
        }),
{
}

/// A turn that was cancelled never ends with an error, whatever the agent
/// does: it ends as cancelled, or as the agent says it stopped.
pub proof fn cancelled_turns_do_not_fail(event: TurnEvent)
    requires
        turn_expects(TurnStage::Cancelling, event),
    ensures
        ({
            let (next, action) = turn_next(TurnStage::Cancelling, event);
            &&& next == TurnStage::Ended
            &&& action matches TurnAction::Close(Ok(outcome)) && (outcome is Cancelled || (
            event matches TurnEvent::Responded(Ok(stop)) && outcome == stopped(stop)))
        }),
{
}

/// Runs a session by spawning an ACP-capable agent as a child process and
/// driving one prompt turn over stdio.
#[derive(Debug, Clone, Copy)]
pub struct AcpProcessRuntime;

impl AcpProcessRuntime {
    /// What a run comes to, given what its turn came to and the error the
    /// connection ended with. A connection error after the turn finished does
    /// not undo the turn; the token does not show in the error.
    pub fn outcome(
        &self,
        turn: Option<RunOutcome>,
        connection_error: Option<String>,
        gh_token: Option<&str>,
    ) -> (r: Result<RunOutcome, String>)
        ensures
            match (turn, connection_error) {
                (Some(outcome), _) => r == Ok::<RunOutcome, String>(outcome),
                (None, Some(error)) => r matches Err(e) && e@ == "acp agent failed: "@ + scrubbed(
                    error@,
                    match gh_token {
                        Some(s) => Some(s@),
                        None => None,
                    },
                ),
                (None, None) => r matches Err(e) && e@
                    == "acp connection closed before the prompt turn finished"@,
            },
    {
        match turn {
            Some(outcome) => Ok(outcome),
            None => match connection_error {
                Some(error) => {
                    let mut out = "acp agent failed: ".to_owned();
                    out.append(redact(error, gh_token).as_str());
                    Err(out)
                },
                None => Err("acp connection closed before the prompt turn finished".to_owned()),
            },
        }
    }
}

/// The error for a command that the protocol library does not take. The
/// command may embed a credential; it is never part of the error.
pub fn invalid_command(harness: &str, error: String, gh_token: Option<&str>) -> (r: String)
    ensures
        r@ == "invalid agent command for harness "@ + harness@ + ": "@ + scrubbed(
            error@,
            match gh_token {
                Some(s) => Some(s@),
                None => None,
            },
        ),
{
    let mut out = "invalid agent command for harness ".to_owned();
    out.append(harness);
    out.append(": ");
    out.append(redact(error, gh_token).as_str());
    out
}

proof fn lemma_command_of(known: Seq<Harness>, name: Seq<char>, i: int)
    requires
        0 <= i <= known.len(),
        forall|k: int| 0 <= k < i ==> (#[trigger] known[k]).name@ != name,
        i < known.len() ==> known[i].name@ == name,
    ensures
        command_of(known, name) == if i < known.len() {
            Some(known[i].command@)
        } else {
            None
        },
    decreases i,
{
    if i > 0 {
        assert(known[0].name@ != name);
        let rest = known.skip(1);
        assert forall|k: int| 0 <= k < i - 1 implies (#[trigger] rest[k]).name@ != name by {
            assert(rest[k] == known[k + 1]);
        }
        lemma_command_of(rest, name, i - 1);
    }
}

/// A session runs the command of the first harness with its name, with the
/// token in its environment when there is one. A name that no harness has is
/// an error that says so.
pub proof fn the_first_harness_of_the_name_runs(
    harness: &str,
    known: &[Harness],
    gh_token: Option<&str>,
    r: Result<String, String>,
    i: int,
)
    requires
        call_ensures(resolve_command, (harness, known, gh_token), r),
        0 <= i <= known@.len(),
        forall|k: int| 0 <= k < i ==> (#[trigger] known@[k]).name@ != harness@,
        i < known@.len() ==> known@[i].name@ == harness@,
    ensures
        i < known@.len() ==> (r matches Ok(command) && command@ == match gh_token {
            Some(token) => "env GH_TOKEN="@ + token@ + " "@ + known@[i].command@,
            None => known@[i].command@,
        }),
        i == known@.len() ==> (r matches Err(e) && e@ == "unknown harness: "@ + harness@),
{
    lemma_command_of(known@, harness@, i);
}

/// A configured harness is read as it was written: the name stands before the
/// first `=`, and everything behind it is the command.
pub proof fn harnesses_are_read_as_written(
    entry: &str,
    r: Option<Harness>,
    name: Seq<char>,
    command: Seq<char>,
)
    requires
        call_ensures(Harness::parse, (entry,), r),
        entry@ == name + seq!['='] + command,
        !name.contains('='),
    ensures
        r matches Some(h) && h.name@ == name && h.command@ == command,
{
    let n = name.len() as int;
    assert(entry@[n] == '=');
    assert(entry@.contains('='));
    let h = r->0;
    let m = h.name@.len() as int;
    assert(entry@[m] == '=');
    if m < n {
        assert(name[m] == entry@[m]);
    } else if n < m {
        assert(h.name@[n] == entry@[n]);
    }
    assert(h.name@ =~= entry@.take(n));
    assert(name =~= entry@.take(n));
    assert(h.command@ =~= entry@.skip(n + 1));
    assert(command =~= entry@.skip(n + 1));
}

/// No secret is left in scrubbed text, and text without the secret stays as it
/// is, as does any text when there is no secret.
pub proof fn scrubbing_takes_the_secret_and_nothing_else(
    text: String,
    secret: Option<&str>,
    r: String,
    i: int,
)
    requires
        call_ensures(redact, (text, secret), r),
    ensures
        secret is None ==> r@ == text@,
        secret matches Some(s) && s@.len() == 0 ==> r@ == text@,
        secret matches Some(s) ==> (s@.len() > 0 && disentangled(s@, "[redacted]"@) ==> !occurs_at(
            r@,
            s@,
            i,
        )),
        secret matches Some(s) && (forall|k: int|
            0 <= k < text@.len() ==> !starts(#[trigger] text@.skip(k), s@)) ==> r@ == text@,
{
    if let Some(s) = secret {
        if s@.len() > 0 && disentangled(s@, "[redacted]"@) {
            secret_is_gone(text@, s@, i);
        }
        if forall|k: int| 0 <= k < text@.len() ==> !starts(#[trigger] text@.skip(k), s@) {
            replacing_nothing(text@, s@, REDACTED@);
        }
    }
}

/// Where the secret stands first in a text, the marker stands in its place
/// when the text is scrubbed, and what follows is scrubbed likewise.
pub proof fn the_marker_stands_for_the_secret(
    text: String,
    rest: String,
    secret: &str,
    r: String,
    tail: String,
    before: Seq<char>,
)
    requires
        call_ensures(redact, (text, Some(secret)), r),
        call_ensures(redact, (rest, Some(secret)), tail),
        secret@.len() > 0,
        text@ == before + secret@ + rest@,
        forall|i: int|
            0 <= i < before.len() ==> !starts(
                #[trigger] (before + secret@ + rest@).skip(i),
                secret@,
            ),
    ensures
        r@ == before + "[redacted]"@ + tail@,
{
    replacing_goes_from_left_to_right(before, secret@, rest@, REDACTED@);
}

/// What goes wrong with an agent is told with its cause, scrubbed of the token.
/// A turn that ended is what the run comes to, whatever the connection did
/// afterwards.
pub proof fn errors_of_agents_are_scrubbed(
    turn: Option<RunOutcome>,
    connection_error: Option<String>,
    gh_token: Option<&str>,
    r: Result<RunOutcome, String>,
    error: String,
    clean: String,
    harness: &str,
    invalid: String,
)
    requires
        call_ensures(
            AcpProcessRuntime::outcome,
            (&AcpProcessRuntime, turn, connection_error, gh_token),
            r,
        ),
        call_ensures(redact, (error, gh_token), clean),
        call_ensures(invalid_command, (harness, error, gh_token), invalid),
    ensures
        turn matches Some(outcome) ==> r == Ok::<RunOutcome, String>(outcome),
        turn is None && connection_error == Some(error) ==> (r matches Err(e) && e@
            == "acp agent failed: "@ + clean@),
        turn is None && connection_error is None ==> (r matches Err(e) && e@
            == "acp connection closed before the prompt turn finished"@),
        invalid@ == "invalid agent command for harness "@ + harness@ + ": "@ + clean@,
{
}

/// An agent is told its instructions, a blank line and the input, or the input
/// alone.
pub proof fn instructions_stand_before_the_input(instructions: &str, input: &str, r: String)
    requires
        call_ensures(prompt_text, (instructions, input), r),
    ensures
        instructions@.len() == 0 ==> r@ == input@,
        instructions@.len() > 0 ==> r@ == instructions@ + "\n\n"@ + input@,
{
}

/// A permission request is answered with its first option, or cancelled when
/// it has none; the event holds the request as it came and the answer.
pub proof fn permissions_are_granted_on_record(
    option_ids: &[String],
    request: Json,
    r: PermissionAnswer,
)
    requires
        call_ensures(answer_permission, (option_ids, request), r),
    ensures
        option_ids@.len() == 0 ==> r.selected is None && r.event@ == JsonView::Object(
            seq![("permissionRequest"@, request@), ("autoApproved"@, JsonView::Null)],
        ),
        option_ids@.len() > 0 ==> (r.selected matches Some(id) && id@ == option_ids@[0]@)
            && r.event@ == JsonView::Object(
            seq![
                ("permissionRequest"@, request@),
                ("autoApproved"@, JsonView::Text(option_ids@[0]@)),
            ],
        ),
{
    if option_ids@.len() == 0 {
        assert(r.event@->Object_0 =~= seq![
            ("permissionRequest"@, request@),
            ("autoApproved"@, JsonView::Null),
        ]);
    } else {
        assert(r.event@->Object_0 =~= seq![
            ("permissionRequest"@, request@),
            ("autoApproved"@, JsonView::Text(option_ids@[0]@)),
        ]);
    }
}

/// A turn initializes, opens a session and prompts, in this order, each once
/// the one before went through, and ends with the error of the first that did
/// not.
pub proof fn turns_take_their_steps(
    begun: (TurnStage, TurnAction),
    stage: TurnStage,
    event: TurnEvent,
    r: (TurnStage, TurnAction),
)
    requires
        call_ensures(turn_begin, (), begun),
        call_ensures(turn_step, (stage, event), r),
        turn_expects(stage, event),
    ensures
        begun.0 is Initializing && begun.1 is Initialize,
        event matches TurnEvent::Initialized(Ok(_)) ==> r.0 is OpeningSession && r.1 is OpenSession,
        event matches TurnEvent::SessionOpened(Ok(_)) ==> r.0 is Prompting && r.1 is Prompt,
        event matches TurnEvent::Initialized(Err(e)) ==> r.0 is Ended && r.1 == TurnAction::Close(
            Err(e),
        ),
        event matches TurnEvent::SessionOpened(Err(e)) ==> r.0 is Ended && r.1
            == TurnAction::Close(Err(e)),
        event is CancelRequested ==> r.0 is Cancelling && r.1 is Cancel,
{
}

/// A turn comes to what the agent says it stopped for. An agent that fails to
/// answer fails the turn, unless it was told to stop, and one that was and
/// takes too long is cancelled.
pub proof fn turns_end_as_the_agent_says(
    stage: TurnStage,
    event: TurnEvent,
    r: (TurnStage, TurnAction),
)
    requires
        call_ensures(turn_step, (stage, event), r),
        turn_expects(stage, event),
        event is Responded || event is GraceElapsed,
    ensures
        r.0 is Ended,
        event matches TurnEvent::Responded(Ok(AgentStop::Reason(reason))) ==> r.1
            == TurnAction::Close(Ok(RunOutcome::Completed { stop_reason: reason })),
        event matches TurnEvent::Responded(Ok(AgentStop::Cancelled)) ==> r.1 == TurnAction::Close(
            Ok(RunOutcome::Cancelled),
        ),
        event matches TurnEvent::Responded(Err(e)) ==> r.1 == (if stage is Prompting {
            TurnAction::Close(Err(e))
        } else {
            TurnAction::Close(Ok(RunOutcome::Cancelled))
        }),
        event is GraceElapsed ==> r.1 == TurnAction::Close(Ok(RunOutcome::Cancelled)),
{
}

/// A turn waits for the answer to what it asked for: a prompt's answer or a
/// cancellation while the agent works, its answer or the end of the grace
/// after that, and nothing once it is over.
pub proof fn turns_wait_for_their_answers(stage: TurnStage, event: TurnEvent)
    ensures
        turn_expects(stage, event) <==> match event {
            TurnEvent::Initialized(_) => stage is Initializing,
            TurnEvent::SessionOpened(_) => stage is OpeningSession,
            TurnEvent::Responded(_) => stage is Prompting || stage is Cancelling,
            TurnEvent::CancelRequested => stage is Prompting,
            TurnEvent::GraceElapsed => stage is Cancelling,
        },
{
}

/// A cancelled agent has ten seconds to acknowledge.
pub proof fn cancelled_agents_have_a_grace()
    ensures
        CANCEL_GRACE_SECS == 10,
{
}

} // verus!
