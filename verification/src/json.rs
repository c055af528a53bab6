//! JSON values.
//!
//! [`Json`] holds a JSON value as plain data. Its view, [`JsonView`], is the
//! mathematical value that contracts speak of. Text is read by `serde_json`.

use vstd::prelude::*;

use crate::text::same_text;

verus! {

/// `serde_json::Number`, a number as `serde_json` keeps it. Nothing here looks
/// inside one.
#[verifier::external_type_specification]
#[verifier::external_body]
pub struct ExNumber(serde_json::Number);

/// A JSON value.
#[derive(Debug, PartialEq, Eq)]
pub enum Json {
    Null,
    Bool(bool),
    Number(serde_json::Number),
    Text(String),
    Array(Vec<Json>),
    Object(Vec<Member>),
}

/// One member of a JSON object.
#[derive(Debug, PartialEq, Eq)]
pub struct Member {
    pub key: String,
    pub value: Json,
}

/// A JSON value as a mathematical value.
#[verifier::ext_equal]
pub enum JsonView {
    Null,
    Bool(bool),
    Number(serde_json::Number),
    Text(Seq<char>),
    Array(Seq<JsonView>),
    Object(Seq<(Seq<char>, JsonView)>),
}

/// The mathematical value of `j`.
pub open spec fn json_view(j: Json) -> JsonView
    decreases j,
{
    match j {
        Json::Null => JsonView::Null,
        Json::Bool(b) => JsonView::Bool(b),
        Json::Number(n) => JsonView::Number(n),
        Json::Text(t) => JsonView::Text(t@),
        Json::Array(items) => JsonView::Array(
            Seq::new(
                items@.len(),
                |i: int|
                    if 0 <= i < items@.len() {
                        json_view(items@[i])
                    } else {
                        JsonView::Null
                    },
            ),
        ),
        Json::Object(members) => JsonView::Object(
            Seq::new(
                members@.len(),
                |i: int|
                    if 0 <= i < members@.len() {
                        (members@[i].key@, json_view(members@[i].value))
                    } else {
                        (Seq::empty(), JsonView::Null)
                    },
            ),
        ),
    }
}

impl View for Json {
    type V = JsonView;

    open spec fn view(&self) -> JsonView {
        json_view(*self)
    }
}

/// Position of the first member with this key, or the number of members.
pub open spec fn member_index(members: Seq<(Seq<char>, JsonView)>, key: Seq<char>) -> int
    decreases members.len(),
{
    if members.len() == 0 || members[0].0 == key {
        0
    } else {
        1 + member_index(members.skip(1), key)
    }
}

/// What `v` holds under `key`: null when `v` is no object or has no such
/// member.
pub open spec fn member(v: JsonView, key: Seq<char>) -> JsonView {
    match v {
        JsonView::Object(members) => {
            let i = member_index(members, key);
            if 0 <= i < members.len() {
                members[i].1
            } else {
                JsonView::Null
            }
        },
        _ => JsonView::Null,
    }
}

/// `v` is an object with a member under `key`.
pub open spec fn has_member(v: JsonView, key: Seq<char>) -> bool {
    match v {
        JsonView::Object(members) => exists|i: int|
            0 <= i < members.len() && (#[trigger] members[i]).0 == key,
        _ => false,
    }
}

/// The text of `v` when it is one.
pub open spec fn text_of_value(v: JsonView) -> Option<Seq<char>> {
    match v {
        JsonView::Text(t) => Some(t),
        _ => None,
    }
}

/// The first member with a key stands at the key's position.
pub proof fn lemma_member_index_is(members: Seq<(Seq<char>, JsonView)>, key: Seq<char>, i: int)
    requires
        0 <= i <= members.len(),
        forall|j: int| 0 <= j < i ==> (#[trigger] members[j]).0 != key,
        i < members.len() ==> members[i].0 == key,
    ensures
        member_index(members, key) == i,
    decreases i,
{
    if i > 0 {
        assert(members[0].0 != key);
        let rest = members.skip(1);
        assert forall|j: int| 0 <= j < i - 1 implies (#[trigger] rest[j]).0 != key by {
            assert(rest[j] == members[j + 1]);
        }
        lemma_member_index_is(rest, key, i - 1);
    }
}

/// The position of a member is the first that has its key.
pub proof fn lemma_member_index(members: Seq<(Seq<char>, JsonView)>, key: Seq<char>)
    ensures
        0 <= member_index(members, key) <= members.len(),
        member_index(members, key) < members.len() ==> members[member_index(members, key)].0 == key,
        forall|j: int| 0 <= j < member_index(members, key) ==> (#[trigger] members[j]).0 != key,
    decreases members.len(),
{
    if members.len() > 0 && members[0].0 != key {
        let rest = members.skip(1);
        lemma_member_index(rest, key);
        assert forall|j: int| 0 <= j < member_index(members, key) implies (
        #[trigger] members[j]).0 != key by {
            if j > 0 {
                assert(rest[j - 1] == members[j]);
            }
        }
    }
}

impl Json {
    /// What the value holds under `key`, when it is an object with such a
    /// member.
    pub fn get(&self, key: &str) -> (r: Option<&Json>)
        ensures
            match r {
                Some(v) => has_member(self@, key@) && v@ == member(self@, key@),
                None => !has_member(self@, key@) && member(self@, key@) == JsonView::Null,
            },
    {
        match self {
            Json::Object(members) => {
                let ghost views = self@->Object_0;
                let mut i: usize = 0;
                while i < members.len()
                    invariant
                        i <= members.len(),
                        self == Json::Object(*members),
                        self@ == JsonView::Object(views),
                        views.len() == members@.len(),
                        forall|j: int| 0 <= j < i ==> (#[trigger] views[j]).0 != key@,
                    decreases members.len() - i,
                {
                    assert(views[i as int] == (members@[i as int].key@, members@[i as int].value@));
                    if same_text(members[i].key.as_str(), key) {
                        proof {
                            lemma_member_index_is(views, key@, i as int);
                        }
                        return Some(&members[i].value);
                    }
                    i += 1;
                }
                proof {
                    lemma_member_index_is(views, key@, i as int);
                }
                None
            },
            _ => None,
        }
    }

    /// The value's text when it is one.
    pub fn as_str(&self) -> (r: Option<&str>)
        ensures
            match r {
                Some(t) => text_of_value(self@) == Some(t@),
                None => text_of_value(self@) is None,
            },
    {
        match self {
            Json::Text(t) => Some(t.as_str()),
            _ => None,
        }
    }

    /// The text that the value holds under `key`, when there is one.
    pub fn get_str(&self, key: &str) -> (r: Option<&str>)
        ensures
            match r {
                Some(t) => text_of_value(member(self@, key@)) == Some(t@),
                None => text_of_value(member(self@, key@)) is None,
            },
    {
        match self.get(key) {
            Some(v) => v.as_str(),
            None => None,
        }
    }

    /// True when the value is an object.
    pub fn is_object(&self) -> (r: bool)
        ensures
            r == (self@ is Object),
    {
        match self {
            Json::Object(_) => true,
            _ => false,
        }
    }
}

/// A string as a JSON value.
pub fn text_value(t: &str) -> (r: Json)
    ensures
        r@ == JsonView::Text(t@),
{
    Json::Text(t.to_owned())
}

/// An object with one member.
pub fn object1(key: &str, value: Json) -> (r: Json)
    ensures
        r@ == JsonView::Object(seq![(key@, value@)]),
{
    let mut members: Vec<Member> = Vec::new();
    members.push(Member { key: key.to_owned(), value });
    let r = Json::Object(members);
    assert(r@->Object_0 =~= seq![(key@, value@)]);
    r
}

/// `object` with one member more at its end.
pub fn with_member(object: Json, key: &str, value: Json) -> (r: Json)
    requires
        object@ is Object,
    ensures
        r@ == JsonView::Object(object@->Object_0.push((key@, value@))),
{
    match object {
        Json::Object(members) => {
            let mut members = members;
            let ghost before = Json::Object(members)@->Object_0;
            let ghost old_members = members@;
            members.push(Member { key: key.to_owned(), value });
            let r = Json::Object(members);
            proof {
                let after = r@->Object_0;
                assert forall|i: int| 0 <= i < before.len() implies after[i] == before[i] by {
                    assert(members@[i] == old_members[i]);
                }
                assert(after =~= before.push((key@, value@)));
            }
            r
        },
        other => other,
    }
}

/// `serde_json::Value`, carried from the reader to [`Json`].
#[verifier::external_type_specification]
#[verifier::external_body]
pub struct ExValue(serde_json::Value);

/// What a `serde_json::Value` holds.
pub uninterp spec fn value_contents(v: serde_json::Value) -> JsonView;

/// The JSON value written in `text`, when it is one.
pub uninterp spec fn parsed_json(text: Seq<char>) -> Option<JsonView>;

/// Reads `text` by `serde_json::from_str` into a `serde_json::Value`: what
/// comes back, a value or a refusal, depends on the text alone.
#[verifier::external_body]
fn read_value(text: &str) -> (r: Option<serde_json::Value>)
    ensures
        match r {
            Some(v) => parsed_json(text@) == Some(value_contents(v)),
            None => parsed_json(text@) is None,
        },
{
    serde_json::from_str(text).ok()
}

/// What a `serde_json::Value` holds, variant by variant, as a [`Json`].
#[verifier::external_body]
fn json_of(value: &serde_json::Value) -> (r: Json)
    ensures
        r@ == value_contents(*value),
{
    match value {
        serde_json::Value::Null => Json::Null,
        serde_json::Value::Bool(b) => Json::Bool(*b),
        serde_json::Value::Number(n) => Json::Number(n.clone()),
        serde_json::Value::String(t) => Json::Text(t.clone()),
        serde_json::Value::Array(items) => Json::Array(items.iter().map(json_of).collect()),
        serde_json::Value::Object(members) => Json::Object(
            members.iter().map(|(k, v)| Member { key: k.clone(), value: json_of(v) }).collect(),
        ),
    }
}

/// The JSON value written in `text`, when it is one.
pub fn parse_json(text: &str) -> (r: Option<Json>)
    ensures
        match r {
            Some(j) => parsed_json(text@) == Some(j@),
            None => parsed_json(text@) is None,
        },
{
    match read_value(text) {
        Some(v) => Some(json_of(&v)),
        None => None,
    }
}

// --- what objects hold -----------------------------------------------------------

/// An object holds under a key what its first member of that key holds;
/// without such a member, and without an object, it is null.
pub proof fn members_are_found_by_their_key(
    value: &Json,
    key: &str,
    found: Option<&Json>,
    members: Seq<(Seq<char>, JsonView)>,
    i: int,
)
    requires
        call_ensures(Json::get, (value, key), found),
        value@ == JsonView::Object(members),
        0 <= i <= members.len(),
        forall|j: int| 0 <= j < i ==> (#[trigger] members[j]).0 != key@,
        i < members.len() ==> members[i].0 == key@,
    ensures
        i < members.len() ==> (found matches Some(v) && v@ == members[i].1 && member(value@, key@)
            == members[i].1),
        i == members.len() ==> found is None && member(value@, key@) is Null,
{
    lemma_member_index_is(members, key@, i);
    if i < members.len() {
        assert(members[i].0 == key@);
    } else if has_member(value@, key@) {
        let k = choose|k: int| 0 <= k < members.len() && (#[trigger] members[k]).0 == key@;
        assert(members[k].0 != key@);
    }
}

/// Only objects hold anything under a key.
pub proof fn only_objects_have_members(value: &Json, key: &str, found: Option<&Json>)
    requires
        call_ensures(Json::get, (value, key), found),
        !(value@ is Object),
    ensures
        found is None,
        member(value@, key@) is Null,
{
}

/// A value is what it is made of.
pub proof fn values_are_their_parts(text: String, items: Vec<Json>, members: Vec<Member>, i: int)
    ensures
        Json::Text(text)@ == JsonView::Text(text@),
        Json::Array(items)@ is Array,
        Json::Array(items)@->Array_0.len() == items@.len(),
        0 <= i < items@.len() ==> Json::Array(items)@->Array_0[i] == items@[i]@,
        Json::Object(members)@ is Object,
        Json::Object(members)@->Object_0.len() == members@.len(),
        0 <= i < members@.len() ==> Json::Object(members)@->Object_0[i] == (
            members@[i].key@,
            members@[i].value@,
        ),
{
}

/// A value gives back what it was made of: a text its characters, an object
/// its members in order, and only a text is one.
pub proof fn values_give_back_what_they_hold(
    text: &str,
    value: Json,
    shown: Option<&str>,
    key: &str,
    inner: Json,
    one: Json,
    found: Option<&Json>,
    object: Json,
    longer: Json,
    any: &Json,
    any_text: Option<&str>,
    any_object: bool,
)
    requires
        call_ensures(text_value, (text,), value),
        call_ensures(Json::as_str, (&value,), shown),
        call_ensures(object1, (key, inner), one),
        call_ensures(Json::get, (&one, key), found),
        object@ is Object,
        call_ensures(with_member, (object, key, inner), longer),
        call_ensures(Json::as_str, (any,), any_text),
        call_ensures(Json::is_object, (any,), any_object),
    ensures
        shown matches Some(t) && t@ == text@,
        found matches Some(v) && v@ == inner@,
        longer@ == JsonView::Object(object@->Object_0.push((key@, inner@))),
        any_text is Some <==> any@ is Text,
        any_text matches Some(t) ==> any@ == JsonView::Text(t@),
        any_object <==> any@ is Object,
{
    let members = seq![(key@, inner@)];
    assert(members[0].0 == key@);
    lemma_member_index_is(members, key@, 0);
}

/// The text under a key is the text of what stands there.
pub proof fn texts_are_found_by_their_key(
    value: &Json,
    key: &str,
    found: Option<&Json>,
    text: Option<&str>,
)
    requires
        call_ensures(Json::get, (value, key), found),
        call_ensures(Json::get_str, (value, key), text),
    ensures
        found is None ==> text is None,
        found matches Some(v) ==> (text is Some <==> v@ is Text),
        found matches Some(v) ==> (text matches Some(t) ==> v@ == JsonView::Text(t@)),
{
}

} // verus!
