//! Event-fidelity redaction. When a workspace's policy is `redacted`, every
//! event payload is passed through [`redact_payload`] before it leaves the
//! machine: the event's kind and structure survive (tool-call names, statuses,
//! file paths, plan-step counts, sequence numbers), but every content string —
//! message text, diffs, file contents, command output, plan text — is
//! replaced with a fixed marker.

use vstd::prelude::*;

use crate::json::{has_member, json_view, Json, JsonView, Member};
use crate::text::same_text;

verus! {

/// What redacted string values are replaced with.
pub const REDACTED: &'static str = "[redacted]";

/// String values under these keys are structural metadata, not content, and
/// are kept verbatim.
pub open spec fn is_keep_key(key: Seq<char>) -> bool {
    // event identity / kind
    ||| key == "sessionUpdate"@
    ||| key == "sessionId"@
    ||| key == "type"@
    ||| key == "kind"@
    ||| key == "status"@
    ||| key == "stopReason"@
    // tool calls
    ||| key == "toolCallId"@
    ||| key == "name"@
    ||| key == "terminalId"@
    // files
    ||| key == "path"@
    ||| key == "uri"@
    ||| key == "mimeType"@
    // plans
    ||| key == "priority"@
    // permission requests (option ids, not content)
    ||| key == "optionId"@
    ||| key == "autoApproved"@
    // session modes
    ||| key == "modeId"@
    ||| key == "currentModeId"@
}

/// The text under `key` is structural metadata; `title` is so inside a tool
/// call only.
pub open spec fn is_structural(key: Seq<char>, in_tool_call: bool) -> bool {
    is_keep_key(key) || (key == "title"@ && in_tool_call)
}

/// One member of an object after redaction.
pub open spec fn redacted_member(m: (Seq<char>, JsonView), in_tool_call: bool) -> (
    Seq<char>,
    JsonView,
)
    decreases m.1, 1nat,
{
    match m.1 {
        JsonView::Text(_) => if is_structural(m.0, in_tool_call) {
            m
        } else {
            (m.0, JsonView::Text(REDACTED@))
        },
        _ => (m.0, redacted(m.1)),
    }
}

/// The value after redaction.
pub open spec fn redacted(v: JsonView) -> JsonView
    decreases v, 0nat,
{
    match v {
        JsonView::Text(_) => JsonView::Text(REDACTED@),
        JsonView::Array(items) => JsonView::Array(
            Seq::new(
                items.len(),
                |i: int|
                    if 0 <= i < items.len() {
                        redacted(items[i])
                    } else {
                        JsonView::Null
                    },
            ),
        ),
        JsonView::Object(members) => JsonView::Object(
            Seq::new(
                members.len(),
                |i: int|
                    if 0 <= i < members.len() {
                        redacted_member(members[i], has_member(v, "toolCallId"@))
                    } else {
                        members[i]
                    },
            ),
        ),
        _ => v,
    }
}

/// True for the keys whose text is kept.
fn keeps(key: &str, in_tool_call: bool) -> (r: bool)
    ensures
        r == is_structural(key@, in_tool_call),
{
    same_text(key, "sessionUpdate") || same_text(key, "sessionId") || same_text(key, "type")
        || same_text(key, "kind") || same_text(key, "status") || same_text(key, "stopReason")
        || same_text(key, "toolCallId") || same_text(key, "name") || same_text(key, "terminalId")
        || same_text(key, "path") || same_text(key, "uri") || same_text(key, "mimeType")
        || same_text(key, "priority") || same_text(key, "optionId") || same_text(
        key,
        "autoApproved",
    ) || same_text(key, "modeId") || same_text(key, "currentModeId") || (in_tool_call && same_text(
        key,
        "title",
    ))
}

/// The members of an object after redaction.
fn scrub_members(members: Vec<Member>, in_tool_call: bool) -> (r: Vec<Member>)
    ensures
        r@.len() == members@.len(),
        forall|j: int|
            0 <= j < r@.len() ==> ((#[trigger] r@[j]).key@, json_view(r@[j].value))
                == redacted_member(
                (members@[j].key@, json_view(members@[j].value)),
                in_tool_call,
            ),
    decreases members,
{
    let mut out: Vec<Member> = Vec::new();
    let ghost all = members@;
    for member in it: members
        invariant
            it.seq() == all,
            all == members@,
            out@.len() == it.index(),
            forall|j: int|
                0 <= j < out@.len() ==> ((#[trigger] out@[j]).key@, json_view(out@[j].value))
                    == redacted_member((all[j].key@, json_view(all[j].value)), in_tool_call),
    {
        let keep: bool = keeps(member.key.as_str(), in_tool_call);
        assert(member == all[it.index() as int]);
        let value: Json = match member.value {
            Json::Text(text) => if keep {
                Json::Text(text)
            } else {
                Json::Text(REDACTED.to_owned())
            },
            other => scrub(other),
        };
        out.push(Member { key: member.key, value });
    }
    out
}

/// The items of an array after redaction.
fn scrub_items(items: Vec<Json>) -> (r: Vec<Json>)
    ensures
        r@.len() == items@.len(),
        forall|j: int|
            0 <= j < r@.len() ==> json_view(#[trigger] r@[j]) == redacted(json_view(items@[j])),
    decreases items,
{
    let mut out: Vec<Json> = Vec::new();
    let ghost all = items@;
    for item in it: items
        invariant
            it.seq() == all,
            all == items@,
            out@.len() == it.index(),
            forall|j: int|
                0 <= j < out@.len() ==> json_view(#[trigger] out@[j]) == redacted(
                    json_view(all[j]),
                ),
    {
        assert(item == all[it.index() as int]);
        out.push(scrub(item));
    }
    out
}

/// The value after redaction.
fn scrub(payload: Json) -> (r: Json)
    ensures
        r@ == redacted(payload@),
    decreases payload,
{
    let is_tool_call: bool = payload.get("toolCallId").is_some();
    let ghost before = payload;
    match payload {
        Json::Object(members) => {
            let ghost old_members = members@;
            let r = Json::Object(scrub_members(members, is_tool_call));
            proof {
                let start = before@->Object_0;
                assert forall|j: int| 0 <= j < start.len() implies start[j] == (
                    old_members[j].key@,
                    json_view(old_members[j].value),
                ) by {}
                assert(r@->Object_0 =~= redacted(before@)->Object_0);
            }
            r
        },
        Json::Array(items) => {
            let ghost old_items = items@;
            let r = Json::Array(scrub_items(items));
            proof {
                let start = before@->Array_0;
                assert forall|j: int| 0 <= j < start.len() implies start[j] == json_view(
                    old_items[j],
                ) by {}
                assert(r@->Array_0 =~= redacted(before@)->Array_0);
            }
            r
        },
        // Strings not reachable through an object key have no structural
        // meaning we can vouch for; scalar payloads other than strings carry
        // no content.
        Json::Text(_) => Json::Text(REDACTED.to_owned()),
        other => other,
    }
}

/// Redact one event payload in place. Keys, nesting, array lengths, numbers,
/// booleans and nulls are untouched; string values are replaced with
/// [`REDACTED`] unless their key marks them as structural metadata.
///
/// `title` is special-cased: inside a tool call (an object that carries a
/// `toolCallId`) it is the tool-call name and is kept; anywhere else (e.g. a
/// session-info title derived from the conversation) it is content.
pub fn redact_payload(payload: &mut Json)
    ensures
        final(payload)@ == redacted(old(payload)@),
{
    let mut taken = Json::Null;
    std::mem::swap(&mut taken, payload);
    *payload = scrub(taken);
}

/// The value with every text emptied: its keys, nesting, array lengths,
/// numbers, booleans and nulls.
pub open spec fn skeleton(v: JsonView) -> JsonView
    decreases v,
{
    match v {
        JsonView::Text(_) => JsonView::Text(Seq::empty()),
        JsonView::Array(items) => JsonView::Array(
            Seq::new(
                items.len(),
                |i: int|
                    if 0 <= i < items.len() {
                        skeleton(items[i])
                    } else {
                        JsonView::Null
                    },
            ),
        ),
        JsonView::Object(members) => JsonView::Object(
            Seq::new(
                members.len(),
                |i: int|
                    if 0 <= i < members.len() {
                        (members[i].0, skeleton(members[i].1))
                    } else {
                        members[i]
                    },
            ),
        ),
        _ => v,
    }
}

/// Every text in the value is the marker, unless its key marks it as
/// structural metadata.
pub open spec fn content_free(v: JsonView) -> bool
    decreases v,
{
    match v {
        JsonView::Text(t) => t == REDACTED@,
        JsonView::Array(items) => forall|i: int|
            0 <= i < items.len() ==> content_free(#[trigger] items[i]),
        JsonView::Object(members) => forall|i: int|
            #![trigger members[i]]
            0 <= i < members.len() ==> {
                ||| content_free(members[i].1)
                ||| members[i].1 is Text && is_structural(
                    members[i].0,
                    has_member(v, "toolCallId"@),
                )
            },
        _ => true,
    }
}

proof fn lemma_redacted_keys(v: JsonView, key: Seq<char>)
    ensures
        has_member(redacted(v), key) == has_member(v, key),
{
    if let JsonView::Object(members) = v {
        let after = redacted(v)->Object_0;
        assert forall|i: int| 0 <= i < members.len() implies (#[trigger] after[i]).0
            == members[i].0 by {
            assert(after[i] == redacted_member(members[i], has_member(v, "toolCallId"@)));
        }
        if has_member(v, key) {
            let i = choose|i: int| 0 <= i < members.len() && (#[trigger] members[i]).0 == key;
            assert(after[i].0 == key);
        }
        if has_member(redacted(v), key) {
            let i = choose|i: int| 0 <= i < after.len() && (#[trigger] after[i]).0 == key;
            assert(members[i].0 == key);
        }
    }
}

/// Redaction keeps the structure: keys, nesting, array lengths, numbers,
/// booleans and nulls.
pub proof fn redaction_keeps_structure(v: JsonView)
    ensures
        skeleton(redacted(v)) == skeleton(v),
    decreases v,
{
    match v {
        JsonView::Array(items) => {
            assert forall|i: int| 0 <= i < items.len() implies skeleton(redacted(items[i]))
                == skeleton(items[i]) by {
                redaction_keeps_structure(items[i]);
            }
            assert(skeleton(redacted(v))->Array_0 =~= skeleton(v)->Array_0);
        },
        JsonView::Object(members) => {
            assert forall|i: int| #![trigger members[i]] 0 <= i < members.len() implies ({
                let m = redacted_member(members[i], has_member(v, "toolCallId"@));
                (m.0, skeleton(m.1)) == (members[i].0, skeleton(members[i].1))
            }) by {
                redaction_keeps_structure(members[i].1);
            }
            assert(skeleton(redacted(v))->Object_0 =~= skeleton(v)->Object_0);
        },
        _ => {},
    }
}

/// No content string survives redaction.
pub proof fn redaction_removes_content(v: JsonView)
    ensures
        content_free(redacted(v)),
    decreases v,
{
    match v {
        JsonView::Array(items) => {
            assert forall|i: int| 0 <= i < items.len() implies content_free(
                #[trigger] redacted(v)->Array_0[i],
            ) by {
                redaction_removes_content(items[i]);
            }
        },
        JsonView::Object(members) => {
            lemma_redacted_keys(v, "toolCallId"@);
            let after = redacted(v)->Object_0;
            assert forall|i: int|
                #![trigger after[i]]
                0 <= i < after.len() implies content_free(after[i].1) || (after[i].1 is Text
                && is_structural(after[i].0, has_member(redacted(v), "toolCallId"@))) by {
                redaction_removes_content(members[i].1);
                assert(after[i] == redacted_member(members[i], has_member(v, "toolCallId"@)));
            }
        },
        _ => {},
    }
}

/// Redacting twice is redacting once.
pub proof fn redaction_is_idempotent(v: JsonView)
    ensures
        redacted(redacted(v)) == redacted(v),
    decreases v,
{
    match v {
        JsonView::Array(items) => {
            assert forall|i: int| 0 <= i < items.len() implies redacted(redacted(items[i]))
                == redacted(items[i]) by {
                redaction_is_idempotent(items[i]);
            }
            assert(redacted(redacted(v))->Array_0 =~= redacted(v)->Array_0);
        },
        JsonView::Object(members) => {
            lemma_redacted_keys(v, "toolCallId"@);
            let tool_call = has_member(v, "toolCallId"@);
            assert forall|i: int| 0 <= i < members.len() implies redacted_member(
                redacted_member(members[i], tool_call),
                tool_call,
            ) == redacted_member(members[i], tool_call) by {
                redaction_is_idempotent(members[i].1);
            }
            assert(redacted(redacted(v))->Object_0 =~= redacted(v)->Object_0);
        },
        _ => {},
    }
}

// --- what leaves the machine -----------------------------------------------------------

/// The value at the end of a path of positions, through arrays and objects.
pub open spec fn value_at(v: JsonView, path: Seq<int>) -> Option<JsonView>
    decreases path.len(),
{
    if path.len() == 0 {
        Some(v)
    } else {
        match v {
            JsonView::Array(items) => if 0 <= path[0] < items.len() {
                value_at(items[path[0]], path.skip(1))
            } else {
                None
            },
            JsonView::Object(members) => if 0 <= path[0] < members.len() {
                value_at(members[path[0]].1, path.skip(1))
            } else {
                None
            },
            _ => None,
        }
    }
}

/// The keys whose texts are structural metadata.
pub open spec fn documented_keys() -> Seq<Seq<char>> {
    seq![
        "sessionUpdate"@,
        "sessionId"@,
        "type"@,
        "kind"@,
        "status"@,
        "stopReason"@,
        "toolCallId"@,
        "name"@,
        "terminalId"@,
        "path"@,
        "uri"@,
        "mimeType"@,
        "priority"@,
        "optionId"@,
        "autoApproved"@,
        "modeId"@,
        "currentModeId"@,
    ]
}

proof fn lemma_documented(key: Seq<char>)
    ensures
        is_keep_key(key) <==> documented_keys().contains(key),
{
    let keys = documented_keys();
    assert(keys[0] == "sessionUpdate"@);
    assert(keys[1] == "sessionId"@);
    assert(keys[2] == "type"@);
    assert(keys[3] == "kind"@);
    assert(keys[4] == "status"@);
    assert(keys[5] == "stopReason"@);
    assert(keys[6] == "toolCallId"@);
    assert(keys[7] == "name"@);
    assert(keys[8] == "terminalId"@);
    assert(keys[9] == "path"@);
    assert(keys[10] == "uri"@);
    assert(keys[11] == "mimeType"@);
    assert(keys[12] == "priority"@);
    assert(keys[13] == "optionId"@);
    assert(keys[14] == "autoApproved"@);
    assert(keys[15] == "modeId"@);
    assert(keys[16] == "currentModeId"@);
    if keys.contains(key) {
        let i = choose|i: int| 0 <= i < keys.len() && keys[i] == key;
        assert(0 <= i < 17);
    }
}

proof fn lemma_redacted_at(v: JsonView, path: Seq<int>)
    requires
        value_at(v, path) is Some,
        !(value_at(v, path)->0 is Text),
    ensures
        value_at(redacted(v), path) == Some(redacted(value_at(v, path)->0)),
    decreases path.len(),
{
    if path.len() > 0 {
        let i = path[0];
        let rest = path.skip(1);
        match v {
            JsonView::Array(items) => {
                lemma_redacted_at(items[i], rest);
                assert(redacted(v)->Array_0[i] == redacted(items[i]));
            },
            JsonView::Object(members) => {
                lemma_redacted_at(members[i].1, rest);
                if members[i].1 is Text {
                    assert(rest.len() == 0);
                }
                assert(redacted(v)->Object_0[i] == redacted_member(
                    members[i],
                    has_member(v, "toolCallId"@),
                ));
            },
            _ => {},
        }
    }
}

/// Wherever an object stands in a payload, a text under one of its keys
/// survives only when the key is a documented one, or `title` beside a
/// `toolCallId`; such a text is kept to the character, and any other is the
/// marker afterwards. Numbers, booleans and nulls stay.
#[verifier::spinoff_prover]
#[verifier::rlimit(40)]
pub proof fn only_documented_texts_survive(payload: &mut Json, path: Seq<int>, i: int)
    requires
        call_ensures(redact_payload, (payload,), ()),
        value_at(old(payload)@, path) matches Some(JsonView::Object(members)) && 0 <= i
            < members.len(),
    ensures
        ({
            let before = value_at(old(payload)@, path)->0->Object_0;
            let after = value_at(final(payload)@, path)->0->Object_0;
            let key = before[i].0;
            let in_tool_call = exists|k: int|
                0 <= k < before.len() && (#[trigger] before[k]).0 == "toolCallId"@;
            &&& value_at(final(payload)@, path) matches Some(JsonView::Object(_))
            &&& after.len() == before.len()
            &&& after[i].0 == key
            &&& before[i].1 matches JsonView::Text(text) ==> after[i].1 == JsonView::Text(
                if documented_keys().contains(key) || (key == "title"@ && in_tool_call) {
                    text
                } else {
                    "[redacted]"@
                },
            )
            &&& !(before[i].1 is Text || before[i].1 is Array || before[i].1 is Object)
                ==> after[i].1 == before[i].1
        }),
{
    let v = value_at(old(payload)@, path)->0;
    let before = v->Object_0;
    lemma_redacted_at(old(payload)@, path);
    lemma_documented(before[i].0);
    assert(redacted(v)->Object_0[i] == redacted_member(before[i], has_member(v, "toolCallId"@)));
}

/// Wherever an array stands in a payload, each of its texts is the marker
/// afterwards; so is a payload that is a text. Numbers, booleans and nulls
/// stay.
pub proof fn no_text_of_an_array_survives(payload: &mut Json, path: Seq<int>, i: int)
    requires
        call_ensures(redact_payload, (payload,), ()),
    ensures
        old(payload)@ is Text ==> final(payload)@ == JsonView::Text("[redacted]"@),
        value_at(old(payload)@, path) matches Some(JsonView::Array(items)) && 0 <= i < items.len()
            ==> {
            let before = value_at(old(payload)@, path)->0->Array_0;
            let after = value_at(final(payload)@, path)->0->Array_0;
            &&& value_at(final(payload)@, path) matches Some(JsonView::Array(_))
            &&& after.len() == before.len()
            &&& before[i] is Text ==> after[i] == JsonView::Text("[redacted]"@)
            &&& !(before[i] is Text || before[i] is Array || before[i] is Object) ==> after[i]
                == before[i]
        },
{
    if value_at(old(payload)@, path) matches Some(JsonView::Array(items)) && 0 <= i < items.len() {
        lemma_redacted_at(old(payload)@, path);
        let v = value_at(old(payload)@, path)->0;
        assert(redacted(v)->Array_0[i] == redacted(v->Array_0[i]));
    }
}

} // verus!
