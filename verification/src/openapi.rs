//! The API's document, from OpenAPI 3.1 to the 3.0 that client generators
//! expect: the two write down differently what may be null.

use vstd::prelude::*;

use crate::json::{
    has_member, json_view, lemma_member_index, lemma_member_index_is, member, member_index, object1,
    Json, JsonView, Member,
};
use crate::text::same_text;

verus! {

// --- how deep a value is -----------------------------------------------------------

/// How deep arrays and objects are nested in a value.
pub open spec fn nesting(v: JsonView) -> nat
    decreases v, 0nat,
{
    match v {
        JsonView::Array(items) => 1 + items_nesting(items, items.len()),
        JsonView::Object(members) => 1 + members_nesting(members, members.len()),
        _ => 0,
    }
}

/// The larger of two numbers.
pub open spec fn larger(a: nat, b: nat) -> nat {
    if a < b {
        b
    } else {
        a
    }
}

/// How deep the first `k` items are.
pub open spec fn items_nesting(items: Seq<JsonView>, k: nat) -> nat
    decreases items, k,
{
    if 0 < k <= items.len() {
        larger(items_nesting(items, (k - 1) as nat), nesting(items[k - 1]))
    } else {
        0
    }
}

/// How deep the values of the first `k` members are.
pub open spec fn members_nesting(members: Seq<(Seq<char>, JsonView)>, k: nat) -> nat
    decreases members, k,
{
    if 0 < k <= members.len() {
        larger(members_nesting(members, (k - 1) as nat), nesting(members[k - 1].1))
    } else {
        0
    }
}

/// No item is deeper than `n`.
pub open spec fn items_within(items: Seq<JsonView>, n: int) -> bool {
    forall|i: int| 0 <= i < items.len() ==> nesting(#[trigger] items[i]) <= n
}

/// No member's value is deeper than `n`.
pub open spec fn members_within(members: Seq<(Seq<char>, JsonView)>, n: int) -> bool {
    forall|i: int| 0 <= i < members.len() ==> nesting((#[trigger] members[i]).1) <= n
}

proof fn lemma_items_nesting(items: Seq<JsonView>, k: nat, n: nat)
    requires
        k <= items.len(),
    ensures
        items_nesting(items, k) <= n <==> (forall|i: int|
            0 <= i < k ==> nesting(#[trigger] items[i]) <= n),
    decreases k,
{
    if k > 0 {
        lemma_items_nesting(items, (k - 1) as nat, n);
        assert(nesting(items[k - 1]) <= n || items_nesting(items, k) > n);
    }
}

proof fn lemma_members_nesting(members: Seq<(Seq<char>, JsonView)>, k: nat, n: nat)
    requires
        k <= members.len(),
    ensures
        members_nesting(members, k) <= n <==> (forall|i: int|
            0 <= i < k ==> nesting((#[trigger] members[i]).1) <= n),
    decreases k,
{
    if k > 0 {
        lemma_members_nesting(members, (k - 1) as nat, n);
        assert(nesting(members[k - 1].1) <= n || members_nesting(members, k) > n);
    }
}

// --- members -----------------------------------------------------------

/// The members with `key` set to `v`: in its place, or at the end.
pub open spec fn put(members: Seq<(Seq<char>, JsonView)>, key: Seq<char>, v: JsonView) -> Seq<
    (Seq<char>, JsonView),
> {
    let i = member_index(members, key);
    if 0 <= i < members.len() {
        members.update(i, (key, v))
    } else {
        members.push((key, v))
    }
}

/// The members with every one of `fields` set, in their order.
pub open spec fn put_all(
    members: Seq<(Seq<char>, JsonView)>,
    fields: Seq<(Seq<char>, JsonView)>,
) -> Seq<(Seq<char>, JsonView)>
    decreases fields.len(),
{
    if fields.len() == 0 {
        members
    } else {
        put(put_all(members, fields.drop_last()), fields.last().0, fields.last().1)
    }
}

/// The members without `key`.
pub open spec fn without(members: Seq<(Seq<char>, JsonView)>, key: Seq<char>) -> Seq<
    (Seq<char>, JsonView),
> {
    let i = member_index(members, key);
    if 0 <= i < members.len() {
        members.remove(i)
    } else {
        members
    }
}

// --- the document -----------------------------------------------------------

/// The types beside null.
pub open spec fn types_beside_null(types: Seq<JsonView>) -> Seq<JsonView> {
    types.filter(|t: JsonView| t != JsonView::Text("null"@))
}

/// An object of which the type is `["string", "null"]` has the type `"string"`
/// and is nullable.
pub open spec fn with_one_type(members: Seq<(Seq<char>, JsonView)>) -> Seq<(Seq<char>, JsonView)> {
    match member(JsonView::Object(members), "type"@) {
        JsonView::Array(types) => {
            let others = types_beside_null(types);
            if types.contains(JsonView::Text("null"@)) && others.len() == 1 {
                put(put(members, "type"@, others[0]), "nullable"@, JsonView::Bool(true))
            } else {
                members
            }
        },
        _ => members,
    }
}

/// The variants beside the null type.
pub open spec fn variants_beside_null(variants: Seq<JsonView>) -> Seq<JsonView> {
    variants.filter(|v: JsonView| member(v, "type"@) != JsonView::Text("null"@))
}

/// A reference as the only part of a whole.
pub open spec fn all_of(reference: JsonView) -> JsonView {
    JsonView::Array(seq![JsonView::Object(seq![("$ref"@, reference)])])
}

/// The members with those of a variant: a reference becomes an `allOf`, with
/// its description beside it; any other object's members are taken over.
pub open spec fn with_variant(members: Seq<(Seq<char>, JsonView)>, variant: JsonView) -> Seq<
    (Seq<char>, JsonView),
> {
    if has_member(variant, "$ref"@) {
        let referring = put(members, "allOf"@, all_of(member(variant, "$ref"@)));
        if has_member(variant, "description"@) {
            put(referring, "description"@, member(variant, "description"@))
        } else {
            referring
        }
    } else {
        match variant {
            JsonView::Object(fields) => put_all(members, fields),
            _ => members,
        }
    }
}

/// An object that is one of null and a variant is that variant, and nullable.
pub open spec fn with_one_variant(members: Seq<(Seq<char>, JsonView)>) -> Seq<
    (Seq<char>, JsonView),
> {
    match member(JsonView::Object(members), "oneOf"@) {
        JsonView::Array(variants) => {
            let others = variants_beside_null(variants);
            if variants.len() == 2 && others.len() == 1 {
                put(
                    with_variant(without(members, "oneOf"@), others[0]),
                    "nullable"@,
                    JsonView::Bool(true),
                )
            } else {
                members
            }
        },
        _ => members,
    }
}

/// An object's members, with what may be null written the other way.
pub open spec fn rewritten(members: Seq<(Seq<char>, JsonView)>) -> Seq<(Seq<char>, JsonView)> {
    with_one_variant(with_one_type(members))
}

proof fn lemma_put_within(
    members: Seq<(Seq<char>, JsonView)>,
    key: Seq<char>,
    v: JsonView,
    n: int,
)
    requires
        members_within(members, n),
        nesting(v) <= n,
    ensures
        members_within(put(members, key, v), n),
{
    let after = put(members, key, v);
    assert forall|i: int| 0 <= i < after.len() implies nesting((#[trigger] after[i]).1) <= n by {
        if i < members.len() {
            assert(nesting(members[i].1) <= n);
        }
    }
}

proof fn lemma_put_all_within(
    members: Seq<(Seq<char>, JsonView)>,
    fields: Seq<(Seq<char>, JsonView)>,
    n: int,
)
    requires
        members_within(members, n),
        members_within(fields, n),
    ensures
        members_within(put_all(members, fields), n),
    decreases fields.len(),
{
    if fields.len() > 0 {
        let front = fields.drop_last();
        assert forall|i: int| 0 <= i < front.len() implies nesting((#[trigger] front[i]).1)
            <= n by {
            assert(nesting(fields[i].1) <= n);
        }
        lemma_put_all_within(members, front, n);
        assert(nesting(fields[fields.len() - 1].1) <= n);
        lemma_put_within(put_all(members, front), fields.last().0, fields.last().1, n);
    }
}

/// A member's value is no deeper than the members are.
proof fn lemma_member_within(members: Seq<(Seq<char>, JsonView)>, key: Seq<char>, n: int)
    requires
        members_within(members, n),
        0 <= n,
    ensures
        nesting(member(JsonView::Object(members), key)) <= n,
{
    lemma_member_index(members, key);
    let i = member_index(members, key);
    if i < members.len() {
        assert(nesting(members[i].1) <= n);
    }
}

/// What a filter keeps is no deeper than what it is given.
proof fn lemma_filter_within(items: Seq<JsonView>, pred: spec_fn(JsonView) -> bool, n: int)
    requires
        items_within(items, n),
    ensures
        items_within(items.filter(pred), n),
    decreases items.len(),
{
    reveal(Seq::filter);
    if items.len() > 0 {
        let front = items.drop_last();
        assert forall|i: int| 0 <= i < front.len() implies nesting(#[trigger] front[i]) <= n by {
            assert(nesting(items[i]) <= n);
        }
        lemma_filter_within(front, pred, n);
        let kept = front.filter(pred);
        let all = items.filter(pred);
        assert(nesting(items[items.len() - 1]) <= n);
        assert forall|i: int| 0 <= i < all.len() implies nesting(#[trigger] all[i]) <= n by {
            if i < kept.len() {
                assert(all[i] == kept[i]);
            }
        }
    }
}

/// The items of a value are less deep than the value.
proof fn lemma_items_of(items: Seq<JsonView>, n: int)
    requires
        nesting(JsonView::Array(items)) <= n,
    ensures
        items_within(items, n - 1),
        n >= 1,
{
    lemma_items_nesting(items, items.len(), (n - 1) as nat);
}

/// The values of an object's members are less deep than the object.
proof fn lemma_members_of(members: Seq<(Seq<char>, JsonView)>, n: int)
    requires
        nesting(JsonView::Object(members)) <= n,
    ensures
        members_within(members, n - 1),
        n >= 1,
{
    lemma_members_nesting(members, members.len(), (n - 1) as nat);
}

proof fn lemma_all_of_nesting(reference: JsonView)
    ensures
        nesting(all_of(reference)) == nesting(reference) + 2,
{
    let ms = seq![("$ref"@, reference)];
    let inner = JsonView::Object(ms);
    let items = seq![inner];
    reveal_with_fuel(members_nesting, 2);
    reveal_with_fuel(items_nesting, 2);
    assert(members_nesting(ms, 1) == nesting(reference));
    assert(items_nesting(items, 1) == nesting(inner));
}

proof fn lemma_with_variant_within(
    members: Seq<(Seq<char>, JsonView)>,
    variant: JsonView,
    n: int,
)
    requires
        members_within(members, n),
        nesting(variant) <= n - 1,
    ensures
        members_within(with_variant(members, variant), n),
{
    if let JsonView::Object(fields) = variant {
        lemma_members_of(fields, n - 1);
        assert(members_within(fields, n)) by {
            assert forall|i: int| 0 <= i < fields.len() implies nesting((#[trigger] fields[i]).1)
                <= n by {
                assert(nesting(fields[i].1) <= n - 2);
            }
        }
        if has_member(variant, "$ref"@) {
            lemma_member_within(fields, "$ref"@, n - 2);
            lemma_member_within(fields, "description"@, n - 2);
            lemma_all_of_nesting(member(variant, "$ref"@));
            let whole = all_of(member(variant, "$ref"@));
            lemma_put_within(members, "allOf"@, whole, n);
            let referring = put(members, "allOf"@, whole);
            lemma_put_within(referring, "description"@, member(variant, "description"@), n);
        } else {
            lemma_put_all_within(members, fields, n);
        }
    }
}

/// Rewriting makes nothing deeper.
proof fn lemma_rewritten_within(members: Seq<(Seq<char>, JsonView)>, n: int)
    requires
        members_within(members, n),
        0 <= n,
    ensures
        members_within(rewritten(members), n),
{
    let object = JsonView::Object(members);
    lemma_member_within(members, "type"@, n);
    let typed = with_one_type(members);
    assert(members_within(typed, n)) by {
        if let JsonView::Array(types) = member(object, "type"@) {
            lemma_items_of(types, n);
            lemma_filter_within(types, |t: JsonView| t != JsonView::Text("null"@), n - 1);
            let others = types_beside_null(types);
            if others.len() == 1 {
                assert(nesting(others[0]) <= n - 1);
                lemma_put_within(members, "type"@, others[0], n);
                lemma_put_within(
                    put(members, "type"@, others[0]),
                    "nullable"@,
                    JsonView::Bool(true),
                    n,
                );
            }
        }
    }
    lemma_member_within(typed, "oneOf"@, n);
    if let JsonView::Array(variants) = member(JsonView::Object(typed), "oneOf"@) {
        lemma_items_of(variants, n);
        lemma_filter_within(
            variants,
            |v: JsonView| member(v, "type"@) != JsonView::Text("null"@),
            n - 1,
        );
        let others = variants_beside_null(variants);
        if others.len() == 1 {
            assert(nesting(others[0]) <= n - 1);
            let rest = without(typed, "oneOf"@);
            assert forall|i: int| 0 <= i < rest.len() implies nesting((#[trigger] rest[i]).1)
                <= n by {
                let k = member_index(typed, "oneOf"@);
                if 0 <= k < typed.len() && i >= k {
                    assert(rest[i] == typed[i + 1]);
                } else {
                    assert(rest[i] == typed[i]);
                }
            }
            lemma_with_variant_within(rest, others[0], n);
            lemma_put_within(
                with_variant(rest, others[0]),
                "nullable"@,
                JsonView::Bool(true),
                n,
            );
        }
    }
}

/// A document in the older notation: every object in it is rewritten, the
/// outer ones first.
pub open spec fn normalized(v: JsonView) -> JsonView
    decreases nesting(v),
    via normalized_ends
{
    match v {
        JsonView::Array(items) => JsonView::Array(
            Seq::new(
                items.len(),
                |i: int|
                    if 0 <= i < items.len() {
                        normalized(items[i])
                    } else {
                        JsonView::Null
                    },
            ),
        ),
        JsonView::Object(members) => JsonView::Object(
            Seq::new(
                rewritten(members).len(),
                |i: int|
                    if 0 <= i < rewritten(members).len() {
                        (rewritten(members)[i].0, normalized(rewritten(members)[i].1))
                    } else {
                        (Seq::empty(), JsonView::Null)
                    },
            ),
        ),
        _ => v,
    }
}

#[via_fn]
proof fn normalized_ends(v: JsonView) {
    match v {
        JsonView::Array(items) => {
            lemma_items_of(items, nesting(v) as int);
        },
        JsonView::Object(members) => {
            lemma_members_of(members, nesting(v) as int);
            lemma_rewritten_within(members, nesting(v) - 1);
        },
        _ => {},
    }
}

// --- rewriting a document -----------------------------------------------------------

/// The views of members.
pub open spec fn member_views(members: Seq<Member>) -> Seq<(Seq<char>, JsonView)> {
    Seq::new(members.len(), |i: int| (members[i].key@, json_view(members[i].value)))
}

/// The views of values.
pub open spec fn value_views(items: Seq<Json>) -> Seq<JsonView> {
    Seq::new(items.len(), |i: int| json_view(items[i]))
}

proof fn lemma_object_view(members: Vec<Member>)
    ensures
        json_view(Json::Object(members)) == JsonView::Object(member_views(members@)),
{
    assert(json_view(Json::Object(members))->Object_0 =~= member_views(members@));
}

proof fn lemma_array_view(items: Vec<Json>)
    ensures
        json_view(Json::Array(items)) == JsonView::Array(value_views(items@)),
{
    assert(json_view(Json::Array(items))->Array_0 =~= value_views(items@));
}

/// Position of the first member with this key, or the number of members.
fn find_member(members: &Vec<Member>, key: &str) -> (r: usize)
    ensures
        r as int == member_index(member_views(members@), key@),
        r <= members@.len(),
{
    let ghost views = member_views(members@);
    let mut i: usize = 0;
    while i < members.len()
        invariant
            i <= members@.len(),
            views == member_views(members@),
            forall|j: int| 0 <= j < i ==> (#[trigger] views[j]).0 != key@,
        decreases members@.len() - i,
    {
        assert(views[i as int].0 == members@[i as int].key@);
        if same_text(members[i].key.as_str(), key) {
            proof {
                lemma_member_index_is(views, key@, i as int);
            }
            return i;
        }
        i += 1;
    }
    proof {
        lemma_member_index_is(views, key@, i as int);
    }
    i
}

/// Sets a member: in its place, or at the end.
fn put_member(members: &mut Vec<Member>, member: Member)
    ensures
        member_views(final(members)@) == put(
            member_views(old(members)@),
            member.key@,
            json_view(member.value),
        ),
{
    let ghost before = member_views(members@);
    let ghost entry = (member.key@, json_view(member.value));
    let i: usize = find_member(members, member.key.as_str());
    if i < members.len() {
        members.remove(i);
        members.insert(i, member);
        assert(member_views(members@) =~= before.update(i as int, entry));
    } else {
        members.push(member);
        assert(member_views(members@) =~= before.push(entry));
    }
}

/// The value is the name of the null type.
fn names_null(value: &Json) -> (r: bool)
    ensures
        r == (value@ == JsonView::Text("null"@)),
{
    match value.as_str() {
        Some(name) => same_text(name, "null"),
        None => false,
    }
}

/// Position of the only type beside null, when there is null and one other.
fn only_type(types: &Vec<Json>) -> (r: Option<usize>)
    ensures
        ({
            let views = value_views(types@);
            let others = types_beside_null(views);
            let single = views.contains(JsonView::Text("null"@)) && others.len() == 1;
            match r {
                Some(j) => single && j < types@.len() && views[j as int] == others[0],
                None => !single,
            }
        }),
{
    let ghost views = value_views(types@);
    let ghost null = JsonView::Text("null"@);
    let mut found: bool = false;
    let mut others: usize = 0;
    let mut last: usize = 0;
    proof {
        reveal(Seq::filter);
        assert(views.take(0) =~= Seq::empty());
    }
    for i in 0..types.len()
        invariant
            views == value_views(types@),
            null == JsonView::Text("null"@),
            others <= i,
            found == views.take(i as int).contains(null),
            types_beside_null(views.take(i as int)).len() == others,
            others > 0 ==> last < i && types_beside_null(views.take(i as int)).last()
                == views[last as int],
    {
        let ghost front = views.take(i as int);
        let ghost here = views.take(i + 1);
        proof {
            reveal(Seq::filter);
            assert(here.drop_last() =~= front);
            assert(here.last() == views[i as int]);
            assert(views[i as int] == json_view(types@[i as int]));
        }
        if names_null(&types[i]) {
            found = true;
            assert(here[i as int] == null);
        } else {
            others += 1;
            last = i;
            proof {
                if front.contains(null) {
                    let k = choose|k: int| 0 <= k < front.len() && front[k] == null;
                    assert(here[k] == null);
                }
                if here.contains(null) {
                    let k = choose|k: int| 0 <= k < here.len() && here[k] == null;
                    assert(front[k] == null);
                }
            }
        }
    }
    assert(views.take(views.len() as int) =~= views);
    if found && others == 1 {
        Some(last)
    } else {
        None
    }
}

/// Position of the only variant beside the null type, when there are two.
fn only_variant(variants: &Vec<Json>) -> (r: Option<usize>)
    ensures
        ({
            let views = value_views(variants@);
            let others = variants_beside_null(views);
            let single = views.len() == 2 && others.len() == 1;
            match r {
                Some(j) => single && j < variants@.len() && views[j as int] == others[0],
                None => !single,
            }
        }),
{
    let ghost views = value_views(variants@);
    let mut others: usize = 0;
    let mut last: usize = 0;
    proof {
        reveal(Seq::filter);
        assert(views.take(0) =~= Seq::empty());
    }
    for i in 0..variants.len()
        invariant
            views == value_views(variants@),
            others <= i,
            variants_beside_null(views.take(i as int)).len() == others,
            others > 0 ==> last < i && variants_beside_null(views.take(i as int)).last()
                == views[last as int],
    {
        proof {
            reveal(Seq::filter);
            assert(views.take(i + 1).drop_last() =~= views.take(i as int));
            assert(views.take(i + 1).last() == views[i as int]);
            assert(views[i as int] == json_view(variants@[i as int]));
        }
        let is_null: bool = match variants[i].get("type") {
            Some(name) => names_null(name),
            None => false,
        };
        if !is_null {
            others += 1;
            last = i;
        }
    }
    assert(views.take(views.len() as int) =~= views);
    if variants.len() == 2 && others == 1 {
        Some(last)
    } else {
        None
    }
}

/// One item of an array.
fn pick(items: Vec<Json>, j: usize) -> (r: Json)
    requires
        j < items@.len(),
    ensures
        r == items@[j as int],
{
    let mut items = items;
    items.remove(j)
}

/// Gives an object its one type.
fn rewrite_type(members: Vec<Member>) -> (r: Vec<Member>)
    ensures
        member_views(r@) == with_one_type(member_views(members@)),
{
    let ghost views = member_views(members@);
    let mut members = members;
    let i: usize = find_member(&members, "type");
    if i == members.len() {
        return members;
    }
    assert(views[i as int] == (members@[i as int].key@, json_view(members@[i as int].value)));
    let only: Option<usize> = match &members[i].value {
        Json::Array(types) => {
            proof {
                lemma_array_view(*types);
            }
            only_type(types)
        },
        _ => None,
    };
    match only {
        Some(j) => {
            let taken: Member = members.remove(i);
            match taken.value {
                Json::Array(types) => {
                    proof {
                        lemma_array_view(types);
                        lemma_member_index(views, "type"@);
                        assert(value_views(types@)[j as int] == json_view(types@[j as int]));
                    }
                    let kept: Json = pick(types, j);
                    let ghost entry = ("type"@, json_view(kept));
                    members.insert(i, Member { key: taken.key, value: kept });
                    assert(member_views(members@) =~= views.update(i as int, entry));
                    put_member(
                        &mut members,
                        Member { key: "nullable".to_owned(), value: Json::Bool(true) },
                    );
                },
                value => {
                    members.insert(i, Member { key: taken.key, value });
                },
            }
        },
        None => {},
    }
    members
}

/// The first member with this key, taken out.
fn take_member(members: &mut Vec<Member>, key: &str) -> (r: Option<Json>)
    ensures
        member_views(final(members)@) == without(member_views(old(members)@), key@),
        match r {
            Some(v) => has_member(JsonView::Object(member_views(old(members)@)), key@) && v@
                == member(JsonView::Object(member_views(old(members)@)), key@),
            None => !has_member(JsonView::Object(member_views(old(members)@)), key@),
        },
{
    let ghost views = member_views(members@);
    proof {
        lemma_member_index(views, key@);
    }
    let i: usize = find_member(members, key);
    if i < members.len() {
        let taken: Member = members.remove(i);
        proof {
            assert(views[i as int].0 == key@);
            assert(member_views(members@) =~= views.remove(i as int));
        }
        Some(taken.value)
    } else {
        None
    }
}

/// Taking one member out leaves the others.
proof fn lemma_without_keeps(
    members: Seq<(Seq<char>, JsonView)>,
    key: Seq<char>,
    other: Seq<char>,
)
    requires
        key != other,
    ensures
        has_member(JsonView::Object(without(members, key)), other) == has_member(
            JsonView::Object(members),
            other,
        ),
        member(JsonView::Object(without(members, key)), other) == member(
            JsonView::Object(members),
            other,
        ),
{
    lemma_member_index(members, key);
    lemma_member_index(members, other);
    let k = member_index(members, key);
    let o = member_index(members, other);
    let rest = without(members, key);
    if k < members.len() {
        let at = if o <= k {
            o
        } else {
            o - 1
        };
        assert forall|j: int| 0 <= j < at implies (#[trigger] rest[j]).0 != other by {
            if j < k {
                assert(rest[j] == members[j]);
            } else {
                assert(rest[j] == members[j + 1]);
            }
        }
        if o < members.len() {
            assert(rest[at] == members[o]);
        } else {
            assert(at == rest.len());
        }
        lemma_member_index_is(rest, other, at);
        lemma_has_member(members, other);
        lemma_has_member(rest, other);
    }
}

/// A key has a member exactly when its position is one.
proof fn lemma_has_member(members: Seq<(Seq<char>, JsonView)>, key: Seq<char>)
    ensures
        has_member(JsonView::Object(members), key) == (member_index(members, key) < members.len()),
{
    lemma_member_index(members, key);
    let i = member_index(members, key);
    if i < members.len() {
        assert(members[i].0 == key);
    }
}

/// Gives an object the members of a variant.
fn take_over(members: Vec<Member>, variant: Json) -> (r: Vec<Member>)
    ensures
        member_views(r@) == with_variant(member_views(members@), variant@),
{
    let mut members = members;
    let ghost views = member_views(members@);
    let ghost whole = variant@;
    match variant {
        Json::Object(fields) => {
            let mut fields = fields;
            let ghost given = member_views(fields@);
            proof {
                lemma_object_view(fields);
            }
            if find_member(&fields, "$ref") < fields.len() {
                proof {
                    lemma_has_member(given, "$ref"@);
                    reveal_strlit("$ref");
                    reveal_strlit("description");
                    assert("$ref"@.len() != "description"@.len());
                    lemma_without_keeps(given, "$ref"@, "description"@);
                }
                match take_member(&mut fields, "$ref") {
                    Some(reference) => {
                        let mut parts: Vec<Json> = Vec::new();
                        let ghost shown = reference@;
                        parts.push(object1("$ref", reference));
                        let all = Json::Array(parts);
                        proof {
                            lemma_array_view(parts);
                            assert(value_views(parts@) =~= seq![
                                JsonView::Object(seq![("$ref"@, shown)]),
                            ]);
                        }
                        put_member(&mut members, Member { key: "allOf".to_owned(), value: all });
                    },
                    None => {},
                }
                match take_member(&mut fields, "description") {
                    Some(description) => put_member(
                        &mut members,
                        Member { key: "description".to_owned(), value: description },
                    ),
                    None => {},
                }
            } else {
                proof {
                    lemma_has_member(given, "$ref"@);
                }
                let ghost all = fields@;
                assert(given.take(0) =~= Seq::empty());
                for field in it: fields
                    invariant
                        it.seq() == all,
                        given == member_views(all),
                        member_views(members@) == put_all(views, given.take(it.index() as int)),
                {
                    proof {
                        let i = it.index() as int;
                        assert(given.take(i + 1).drop_last() =~= given.take(i));
                        assert(given.take(i + 1).last() == (field.key@, json_view(field.value)));
                    }
                    put_member(&mut members, field);
                }
                assert(given.take(given.len() as int) =~= given);
            }
        },
        _ => {},
    }
    members
}

/// Gives an object its one variant.
fn rewrite_variants(members: Vec<Member>) -> (r: Vec<Member>)
    ensures
        member_views(r@) == with_one_variant(member_views(members@)),
{
    let ghost views = member_views(members@);
    let mut members = members;
    let i: usize = find_member(&members, "oneOf");
    if i == members.len() {
        return members;
    }
    assert(views[i as int] == (members@[i as int].key@, json_view(members@[i as int].value)));
    let only: Option<usize> = match &members[i].value {
        Json::Array(variants) => {
            proof {
                lemma_array_view(*variants);
            }
            only_variant(variants)
        },
        _ => None,
    };
    match only {
        Some(j) => {
            let taken: Member = members.remove(i);
            assert(member_views(members@) =~= views.remove(i as int));
            match taken.value {
                Json::Array(variants) => {
                    proof {
                        lemma_array_view(variants);
                        assert(value_views(variants@)[j as int] == json_view(variants@[j as int]));
                    }
                    members = take_over(members, pick(variants, j));
                    put_member(
                        &mut members,
                        Member { key: "nullable".to_owned(), value: Json::Bool(true) },
                    );
                },
                value => {
                    members.insert(i, Member { key: taken.key, value });
                },
            }
        },
        None => {},
    }
    members
}

/// The members of a document's object, rewritten all the way down.
fn normalize_members(members: Vec<Member>) -> (r: Vec<Member>)
    ensures
        r@.len() == members@.len(),
        forall|j: int|
            0 <= j < r@.len() ==> ((#[trigger] r@[j]).key@, json_view(r@[j].value)) == (
                members@[j].key@,
                normalized(json_view(members@[j].value)),
            ),
    decreases members_nesting(member_views(members@), members@.len()), 1nat,
{
    let mut out: Vec<Member> = Vec::new();
    let ghost all = members@;
    let ghost n = members_nesting(member_views(members@), members@.len());
    proof {
        lemma_members_nesting(member_views(all), all.len(), n);
    }
    for member in it: members
        invariant
            it.seq() == all,
            all == members@,
            n == members_nesting(member_views(members@), members@.len()),
            members_within(member_views(all), n as int),
            out@.len() == it.index(),
            forall|j: int|
                0 <= j < out@.len() ==> ((#[trigger] out@[j]).key@, json_view(out@[j].value)) == (
                    all[j].key@,
                    normalized(json_view(all[j].value)),
                ),
    {
        proof {
            assert(member == all[it.index() as int]);
            assert(nesting(member_views(all)[it.index() as int].1) <= n);
        }
        let value: Json = normalize(member.value);
        out.push(Member { key: member.key, value });
    }
    out
}

/// The items of a document's array, rewritten all the way down.
fn normalize_items(items: Vec<Json>) -> (r: Vec<Json>)
    ensures
        r@.len() == items@.len(),
        forall|j: int|
            0 <= j < r@.len() ==> json_view(#[trigger] r@[j]) == normalized(json_view(items@[j])),
    decreases items_nesting(value_views(items@), items@.len()), 1nat,
{
    let mut out: Vec<Json> = Vec::new();
    let ghost all = items@;
    let ghost n = items_nesting(value_views(items@), items@.len());
    proof {
        lemma_items_nesting(value_views(all), all.len(), n);
    }
    for item in it: items
        invariant
            it.seq() == all,
            all == items@,
            n == items_nesting(value_views(items@), items@.len()),
            items_within(value_views(all), n as int),
            out@.len() == it.index(),
            forall|j: int|
                0 <= j < out@.len() ==> json_view(#[trigger] out@[j]) == normalized(
                    json_view(all[j]),
                ),
    {
        proof {
            assert(item == all[it.index() as int]);
            assert(nesting(value_views(all)[it.index() as int]) <= n);
        }
        out.push(normalize(item));
    }
    out
}

/// A document, rewritten all the way down.
fn normalize(value: Json) -> (r: Json)
    ensures
        r@ == normalized(value@),
    decreases nesting(value@), 0nat,
{
    let ghost before = value@;
    match value {
        Json::Object(members) => {
            let ghost given = member_views(members@);
            proof {
                lemma_object_view(members);
                lemma_members_of(given, nesting(before) as int);
                lemma_rewritten_within(given, nesting(before) - 1);
            }
            let members: Vec<Member> = rewrite_variants(rewrite_type(members));
            let ghost inner = member_views(members@);
            proof {
                lemma_members_nesting(inner, inner.len(), (nesting(before) - 1) as nat);
            }
            let ghost rewritten_members = members@;
            let out: Vec<Member> = normalize_members(members);
            let r = Json::Object(out);
            proof {
                lemma_object_view(out);
                let after = normalized(before)->Object_0;
                assert forall|j: int| 0 <= j < after.len() implies member_views(out@)[j]
                    == after[j] by {
                    assert(inner[j] == (
                        rewritten_members[j].key@,
                        json_view(rewritten_members[j].value),
                    ));
                    assert((out@[j].key@, json_view(out@[j].value)) == (
                        rewritten_members[j].key@,
                        normalized(json_view(rewritten_members[j].value)),
                    ));
                }
                assert(member_views(out@) =~= after);
            }
            r
        },
        Json::Array(items) => {
            let ghost given = items@;
            proof {
                lemma_array_view(items);
            }
            let out: Vec<Json> = normalize_items(items);
            let r = Json::Array(out);
            proof {
                lemma_array_view(out);
                let after = normalized(before)->Array_0;
                assert forall|j: int| 0 <= j < after.len() implies value_views(out@)[j]
                    == after[j] by {
                    assert(value_views(given)[j] == json_view(given[j]));
                }
                assert(value_views(out@) =~= after);
            }
            r
        },
        other => other,
    }
}

/// Rewrites an OpenAPI 3.1 document as OpenAPI 3.0, which has other words for
/// what may be null:
///
/// - `"type": ["string", "null"]` becomes `"type": "string", "nullable": true`;
/// - `"oneOf": [{ "type": "null" }, { "$ref": "..." }]` becomes
///   `"allOf": [{ "$ref": "..." }], "nullable": true`;
/// - a `oneOf` of null and another object becomes that object, nullable.
pub fn normalize_openapi(value: &mut Json)
    ensures
        final(value)@ == normalized(old(value)@),
{
    let mut taken = Json::Null;
    std::mem::swap(&mut taken, value);
    *value = normalize(taken);
}

/// No object in the value has a list as its `type` or its `oneOf`.
pub open spec fn is_plain(v: JsonView) -> bool
    decreases v,
{
    match v {
        JsonView::Array(items) => forall|i: int|
            0 <= i < items.len() ==> is_plain(#[trigger] items[i]),
        JsonView::Object(members) => {
            &&& member(v, "type"@) !is Array
            &&& member(v, "oneOf"@) !is Array
            &&& forall|i: int| 0 <= i < members.len() ==> is_plain((#[trigger] members[i]).1)
        },
        _ => true,
    }
}

/// A document that has neither notation is left as it is.
pub proof fn plain_documents_are_unchanged(v: JsonView)
    requires
        is_plain(v),
    ensures
        normalized(v) == v,
    decreases v,
{
    match v {
        JsonView::Array(items) => {
            assert forall|i: int| 0 <= i < items.len() implies normalized(#[trigger] items[i])
                == items[i] by {
                plain_documents_are_unchanged(items[i]);
            }
            assert(normalized(v)->Array_0 =~= items);
        },
        JsonView::Object(members) => {
            assert(rewritten(members) == members);
            assert forall|i: int| 0 <= i < members.len() implies normalized(
                (#[trigger] members[i]).1,
            ) == members[i].1 by {
                plain_documents_are_unchanged(members[i].1);
            }
            assert(normalized(v)->Object_0 =~= members);
        },
        _ => {},
    }
}

// --- what callers see -----------------------------------------------------------

/// A member of the members.
pub open spec fn value_under(members: Seq<(Seq<char>, JsonView)>, key: Seq<char>) -> JsonView {
    member(JsonView::Object(members), key)
}

/// The members have the key.
pub open spec fn holds_key(members: Seq<(Seq<char>, JsonView)>, key: Seq<char>) -> bool {
    has_member(JsonView::Object(members), key)
}

proof fn lemma_put(
    members: Seq<(Seq<char>, JsonView)>,
    key: Seq<char>,
    v: JsonView,
    other: Seq<char>,
)
    ensures
        value_under(put(members, key, v), key) == v,
        holds_key(put(members, key, v), key),
        other != key ==> value_under(put(members, key, v), other) == value_under(members, other),
        other != key ==> holds_key(put(members, key, v), other) == holds_key(members, other),
{
    lemma_member_index(members, key);
    lemma_member_index(members, other);
    let after = put(members, key, v);
    let i = member_index(members, key);
    let o = member_index(members, other);
    assert forall|j: int| 0 <= j < i implies (#[trigger] after[j]).0 != key by {
        assert(after[j] == members[j]);
    }
    lemma_member_index_is(after, key, i);
    lemma_has_member(after, key);
    lemma_has_member(members, other);
    if other != key {
        if o < members.len() {
            assert forall|j: int| 0 <= j < o implies (#[trigger] after[j]).0 != other by {
                assert(members[j].0 != other);
            }
            assert(after[o] == members[o]);
            lemma_member_index_is(after, other, o);
        } else {
            assert forall|j: int| 0 <= j < after.len() implies (#[trigger] after[j]).0 != other by {
                if j < members.len() {
                    assert(members[j].0 != other);
                }
            }
            lemma_member_index_is(after, other, after.len() as int);
        }
        lemma_has_member(after, other);
    }
}

/// Every key once.
pub open spec fn distinct(members: Seq<(Seq<char>, JsonView)>) -> bool {
    forall|i: int, j: int|
        0 <= i < j < members.len() ==> (#[trigger] members[i]).0 != (#[trigger] members[j]).0
}

proof fn lemma_without(
    members: Seq<(Seq<char>, JsonView)>,
    key: Seq<char>,
    other: Seq<char>,
)
    requires
        distinct(members),
    ensures
        !holds_key(without(members, key), key),
        value_under(without(members, key), key) == JsonView::Null,
        other != key ==> value_under(without(members, key), other) == value_under(members, other),
        other != key ==> holds_key(without(members, key), other) == holds_key(members, other),
        distinct(without(members, key)),
{
    lemma_member_index(members, key);
    let after = without(members, key);
    let i = member_index(members, key);
    assert forall|j: int| 0 <= j < after.len() implies (#[trigger] after[j]).0 != key by {
        if i < members.len() && j >= i {
            assert(after[j] == members[j + 1]);
            assert(members[i].0 != members[j + 1].0);
        } else {
            assert(after[j] == members[j]);
        }
    }
    lemma_member_index_is(after, key, after.len() as int);
    lemma_has_member(after, key);
    if other != key {
        lemma_without_keeps(members, key, other);
    }
    assert forall|a: int, b: int| 0 <= a < b < after.len() implies (#[trigger] after[a]).0 != (
    #[trigger] after[b]).0 by {
        let x = if i < members.len() && a >= i {
            a + 1
        } else {
            a
        };
        let y = if i < members.len() && b >= i {
            b + 1
        } else {
            b
        };
        assert(members[x].0 != members[y].0);
    }
}

proof fn lemma_put_all(
    members: Seq<(Seq<char>, JsonView)>,
    fields: Seq<(Seq<char>, JsonView)>,
    key: Seq<char>,
)
    requires
        distinct(fields),
    ensures
        value_under(put_all(members, fields), key) == if holds_key(fields, key) {
            value_under(fields, key)
        } else {
            value_under(members, key)
        },
        holds_key(put_all(members, fields), key) == (holds_key(fields, key) || holds_key(members, key)),
    decreases fields.len(),
{
    lemma_has_member(fields, key);
    lemma_member_index(fields, key);
    if fields.len() > 0 {
        let front = fields.drop_last();
        let last = fields.last();
        assert forall|i: int, j: int| 0 <= i < j < front.len() implies (#[trigger] front[i]).0 != (
        #[trigger] front[j]).0 by {
            assert(fields[i].0 != fields[j].0);
        }
        lemma_put_all(members, front, key);
        lemma_put(put_all(members, front), last.0, last.1, key);
        lemma_has_member(front, key);
        lemma_member_index(front, key);
        let i = member_index(front, key);
        let n = fields.len() - 1;
        if i < front.len() {
            assert(fields[i] == front[i]);
            assert(fields[i].0 != fields[n].0);
            assert forall|j: int| 0 <= j < i implies (#[trigger] fields[j]).0 != key by {
                assert(front[j].0 != key);
            }
            lemma_member_index_is(fields, key, i);
        } else {
            assert forall|j: int| 0 <= j < n implies (#[trigger] fields[j]).0 != key by {
                assert(front[j].0 != key);
            }
            if last.0 == key {
                lemma_member_index_is(fields, key, n);
            } else {
                lemma_member_index_is(fields, key, fields.len() as int);
            }
        }
    }
}

/// A document's object has, under each key, what its rewritten object has
/// there, normalized.
proof fn lemma_normalized_member(members: Seq<(Seq<char>, JsonView)>, key: Seq<char>)
    ensures
        member(normalized(JsonView::Object(members)), key) == normalized(
            value_under(rewritten(members), key),
        ),
        has_member(normalized(JsonView::Object(members)), key) == holds_key(rewritten(members), key),
{
    let inner = rewritten(members);
    let out = normalized(JsonView::Object(members))->Object_0;
    lemma_member_index(inner, key);
    let i = member_index(inner, key);
    assert forall|j: int| 0 <= j < i implies (#[trigger] out[j]).0 != key by {
        assert(out[j].0 == inner[j].0);
    }
    lemma_member_index_is(out, key, i);
    lemma_has_member(inner, key);
    lemma_has_member(out, key);
}

/// Exactly one item passes the filter.
proof fn lemma_filter_one(items: Seq<JsonView>, pred: spec_fn(JsonView) -> bool, j: int)
    requires
        0 <= j < items.len(),
        forall|i: int| 0 <= i < items.len() ==> (pred(#[trigger] items[i]) <==> i == j),
    ensures
        items.filter(pred) == seq![items[j]],
    decreases items.len(),
{
    reveal(Seq::filter);
    let front = items.drop_last();
    let n = items.len() - 1;
    assert(items[n] == items.last());
    assert forall|i: int| 0 <= i < front.len() implies (pred(#[trigger] front[i]) <==> i == j) by {
        assert(front[i] == items[i]);
    }
    if j == n {
        lemma_filter_none(front, pred);
        assert(items.filter(pred) =~= seq![items[j]]);
    } else {
        lemma_filter_one(front, pred, j);
    }
}

proof fn lemma_filter_none(items: Seq<JsonView>, pred: spec_fn(JsonView) -> bool)
    requires
        forall|i: int| 0 <= i < items.len() ==> !pred(#[trigger] items[i]),
    ensures
        items.filter(pred) == Seq::<JsonView>::empty(),
    decreases items.len(),
{
    reveal(Seq::filter);
    if items.len() > 0 {
        let front = items.drop_last();
        assert(items[items.len() - 1] == items.last());
        assert forall|i: int| 0 <= i < front.len() implies !pred(#[trigger] front[i]) by {
            assert(front[i] == items[i]);
        }
        lemma_filter_none(front, pred);
    }
}

/// A type that is a list of null and one other becomes the other, nullable;
/// nothing else of the object changes but what is nested in it.
#[verifier::spinoff_prover]
#[verifier::rlimit(40)]
pub proof fn nullable_types_are_marked(
    value: &mut Json,
    members: Seq<(Seq<char>, JsonView)>,
    types: Seq<JsonView>,
    j: int,
    key: Seq<char>,
)
    requires
        call_ensures(normalize_openapi, (value,), ()),
        old(value)@ == JsonView::Object(members),
        member(old(value)@, "type"@) == JsonView::Array(types),
        !(member(old(value)@, "oneOf"@) is Array),
        types.contains(JsonView::Text("null"@)),
        0 <= j < types.len(),
        forall|i: int|
            0 <= i < types.len() ==> (#[trigger] types[i] == JsonView::Text("null"@) <==> i != j),
    ensures
        final(value)@ is Object,
        member(final(value)@, "type"@) == normalized(types[j]),
        member(final(value)@, "nullable"@) == JsonView::Bool(true),
        key != "type"@ && key != "nullable"@ ==> member(final(value)@, key) == normalized(
            member(old(value)@, key),
        ) && has_member(final(value)@, key) == has_member(old(value)@, key),
{
    reveal_strlit("type");
    reveal_strlit("nullable");
    reveal_strlit("oneOf");
    assert("type"@.len() == 4 && "nullable"@.len() == 8 && "oneOf"@.len() == 5);
    lemma_filter_one(types, |t: JsonView| t != JsonView::Text("null"@), j);
    let first = put(members, "type"@, types[j]);
    let second = put(first, "nullable"@, JsonView::Bool(true));
    assert(with_one_type(members) == second);
    lemma_put(members, "type"@, types[j], "oneOf"@);
    lemma_put(first, "nullable"@, JsonView::Bool(true), "oneOf"@);
    assert(rewritten(members) == second);
    lemma_put(members, "type"@, types[j], key);
    lemma_put(first, "nullable"@, JsonView::Bool(true), "type"@);
    lemma_put(first, "nullable"@, JsonView::Bool(true), key);
    lemma_normalized_member(members, "type"@);
    lemma_normalized_member(members, "nullable"@);
    lemma_normalized_member(members, key);
}

/// One of null and a reference becomes the whole of that reference, nullable,
/// with the reference's description when it has one.
#[verifier::spinoff_prover]
#[verifier::rlimit(40)]
pub proof fn nullable_references_are_wrapped(
    value: &mut Json,
    members: Seq<(Seq<char>, JsonView)>,
    variants: Seq<JsonView>,
    j: int,
    key: Seq<char>,
)
    requires
        call_ensures(normalize_openapi, (value,), ()),
        old(value)@ == JsonView::Object(members),
        distinct(members),
        !(member(old(value)@, "type"@) is Array),
        member(old(value)@, "oneOf"@) == JsonView::Array(variants),
        variants.len() == 2,
        0 <= j < 2,
        member(variants[1 - j], "type"@) == JsonView::Text("null"@),
        member(variants[j], "type"@) != JsonView::Text("null"@),
        has_member(variants[j], "$ref"@),
    ensures
        !has_member(final(value)@, "oneOf"@),
        member(final(value)@, "nullable"@) == JsonView::Bool(true),
        member(final(value)@, "allOf"@) == normalized(
            JsonView::Array(
                seq![JsonView::Object(seq![("$ref"@, member(variants[j], "$ref"@))])],
            ),
        ),
        has_member(variants[j], "description"@) ==> member(final(value)@, "description"@)
            == normalized(member(variants[j], "description"@)),
        key != "oneOf"@ && key != "nullable"@ && key != "allOf"@ && (key != "description"@
            || !has_member(variants[j], "description"@)) ==> member(final(value)@, key)
            == normalized(member(old(value)@, key)) && has_member(final(value)@, key) == has_member(
            old(value)@,
            key,
        ),
{
    lemma_key_lengths();
    let pred = |v: JsonView| member(v, "type"@) != JsonView::Text("null"@);
    lemma_filter_one(variants, pred, j);
    let rest = without(members, "oneOf"@);
    let variant = variants[j];
    let whole = all_of(member(variant, "$ref"@));
    let referring = put(rest, "allOf"@, whole);
    let described = with_variant(rest, variant);
    let marked = put(described, "nullable"@, JsonView::Bool(true));
    assert(with_one_type(members) == members);
    assert(rewritten(members) == marked);
    lemma_reference_members(rest, variant, whole, key);
    lemma_reference_members(rest, variant, whole, "oneOf"@);
    lemma_reference_members(rest, variant, whole, "allOf"@);
    lemma_reference_members(rest, variant, whole, "description"@);
    lemma_without(members, "oneOf"@, key);
    lemma_put(described, "nullable"@, JsonView::Bool(true), key);
    lemma_put(described, "nullable"@, JsonView::Bool(true), "oneOf"@);
    lemma_put(described, "nullable"@, JsonView::Bool(true), "allOf"@);
    lemma_put(described, "nullable"@, JsonView::Bool(true), "description"@);
    lemma_normalized_member(members, "oneOf"@);
    lemma_normalized_member(members, "nullable"@);
    lemma_normalized_member(members, "allOf"@);
    lemma_normalized_member(members, "description"@);
    lemma_normalized_member(members, key);
}

proof fn lemma_key_lengths()
    ensures
        "type"@ != "nullable"@,
        "type"@ != "oneOf"@,
        "nullable"@ != "oneOf"@,
        "allOf"@ != "nullable"@,
        "allOf"@ != "oneOf"@,
        "allOf"@ != "description"@,
        "description"@ != "nullable"@,
        "description"@ != "oneOf"@,
        "$ref"@ != "nullable"@,
{
    reveal_strlit("type");
    reveal_strlit("nullable");
    reveal_strlit("oneOf");
    reveal_strlit("allOf");
    reveal_strlit("description");
    reveal_strlit("$ref");
    assert("type"@.len() == 4 && "nullable"@.len() == 8 && "oneOf"@.len() == 5 && "allOf"@.len()
        == 5 && "description"@.len() == 11 && "$ref"@.len() == 4);
    assert("allOf"@[0] == 'a' && "oneOf"@[0] == 'o');
}

proof fn lemma_reference_members(
    rest: Seq<(Seq<char>, JsonView)>,
    variant: JsonView,
    whole: JsonView,
    key: Seq<char>,
)
    requires
        has_member(variant, "$ref"@),
        whole == all_of(member(variant, "$ref"@)),
    ensures
        ({
            let after = with_variant(rest, variant);
            &&& value_under(after, "allOf"@) == whole
            &&& has_member(variant, "description"@) ==> value_under(after, "description"@) == member(
                variant,
                "description"@,
            )
            &&& key != "allOf"@ && (key != "description"@ || !has_member(variant, "description"@))
                ==> value_under(after, key) == value_under(rest, key) && holds_key(after, key) == holds_key(rest, key)
        }),
{
    lemma_key_lengths();
    let referring = put(rest, "allOf"@, whole);
    lemma_put(rest, "allOf"@, whole, key);
    lemma_put(rest, "allOf"@, whole, "description"@);
    if has_member(variant, "description"@) {
        let description = member(variant, "description"@);
        lemma_put(referring, "description"@, description, key);
        lemma_put(referring, "description"@, description, "allOf"@);
    }
}

/// One of null and an object that is no reference becomes that object, whose
/// members come before those beside it, nullable.
#[verifier::spinoff_prover]
#[verifier::rlimit(40)]
pub proof fn nullable_objects_are_taken_over(
    value: &mut Json,
    members: Seq<(Seq<char>, JsonView)>,
    variants: Seq<JsonView>,
    j: int,
    fields: Seq<(Seq<char>, JsonView)>,
    key: Seq<char>,
)
    requires
        call_ensures(normalize_openapi, (value,), ()),
        old(value)@ == JsonView::Object(members),
        distinct(members),
        !(member(old(value)@, "type"@) is Array),
        member(old(value)@, "oneOf"@) == JsonView::Array(variants),
        variants.len() == 2,
        0 <= j < 2,
        member(variants[1 - j], "type"@) == JsonView::Text("null"@),
        member(variants[j], "type"@) != JsonView::Text("null"@),
        !has_member(variants[j], "$ref"@),
        variants[j] == JsonView::Object(fields),
        distinct(fields),
    ensures
        member(final(value)@, "nullable"@) == JsonView::Bool(true),
        key != "nullable"@ && has_member(variants[j], key) ==> member(final(value)@, key)
            == normalized(member(variants[j], key)),
        key != "nullable"@ && !has_member(variants[j], key) && key != "oneOf"@ ==> member(
            final(value)@,
            key,
        ) == normalized(member(old(value)@, key)) && has_member(final(value)@, key) == has_member(
            old(value)@,
            key,
        ),
        !has_member(variants[j], "oneOf"@) ==> !has_member(final(value)@, "oneOf"@),
{
    lemma_key_lengths();
    let pred = |v: JsonView| member(v, "type"@) != JsonView::Text("null"@);
    lemma_filter_one(variants, pred, j);
    let rest = without(members, "oneOf"@);
    let taken = put_all(rest, fields);
    let marked = put(taken, "nullable"@, JsonView::Bool(true));
    assert(with_one_type(members) == members);
    assert(rewritten(members) == marked);
    lemma_put_all(rest, fields, key);
    lemma_put_all(rest, fields, "oneOf"@);
    lemma_without(members, "oneOf"@, key);
    lemma_put(taken, "nullable"@, JsonView::Bool(true), key);
    lemma_put(taken, "nullable"@, JsonView::Bool(true), "oneOf"@);
    lemma_normalized_member(members, "nullable"@);
    lemma_normalized_member(members, "oneOf"@);
    lemma_normalized_member(members, key);
}

/// The type or the variants of an object are of null and one other.
pub open spec fn may_be_null(members: Seq<(Seq<char>, JsonView)>) -> bool {
    ||| value_under(members, "type"@) matches JsonView::Array(types) && types.contains(
        JsonView::Text("null"@),
    )
    ||| value_under(members, "oneOf"@) matches JsonView::Array(variants) && variants.len() == 2
}

/// Whatever says nothing of null keeps its shape: an object its members in
/// their order, an array its items, and any other value itself; what is nested
/// in it is normalized in turn.
pub proof fn other_values_keep_their_shape(value: &mut Json, i: int)
    requires
        call_ensures(normalize_openapi, (value,), ()),
    ensures
        match old(value)@ {
            JsonView::Object(members) => !may_be_null(members) ==> (final(value)@
                matches JsonView::Object(after) && after.len() == members.len() && (0 <= i
                < members.len() ==> after[i] == (members[i].0, normalized(members[i].1)))),
            JsonView::Array(items) => final(value)@ matches JsonView::Array(after) && after.len()
                == items.len() && (0 <= i < items.len() ==> after[i] == normalized(items[i])),
            other => final(value)@ == other,
        },
{
    if let JsonView::Object(members) = old(value)@ {
        if !may_be_null(members) {
            assert(with_one_type(members) == members);
            assert(rewritten(members) == members);
        }
    }
}

/// A list of types with null and more than one other, or with nothing but
/// null, is left alone, and so are two variants of which both or neither is
/// the null type.
pub proof fn only_one_other_makes_nullable(members: Seq<(Seq<char>, JsonView)>, i: int, j: int)
    requires
        match value_under(members, "type"@) {
            JsonView::Array(types) => 0 <= i < j < types.len() && types[i] != JsonView::Text(
                "null"@,
            ) && types[j] != JsonView::Text("null"@),
            _ => true,
        },
        match value_under(members, "oneOf"@) {
            JsonView::Array(variants) => variants.len() != 2 || ((member(variants[0], "type"@)
                == JsonView::Text("null"@)) <==> (member(variants[1], "type"@) == JsonView::Text(
                "null"@,
            ))),
            _ => true,
        },
    ensures
        rewritten(members) == members,
{
    if let JsonView::Array(types) = value_under(members, "type"@) {
        lemma_filter_two(types, |t: JsonView| t != JsonView::Text("null"@), i, j);
    }
    assert(with_one_type(members) == members);
    if let JsonView::Array(variants) = value_under(members, "oneOf"@) {
        let pred = |v: JsonView| member(v, "type"@) != JsonView::Text("null"@);
        if variants.len() == 2 {
            if pred(variants[0]) {
                lemma_filter_two(variants, pred, 0, 1);
            } else {
                assert forall|k: int| 0 <= k < variants.len() implies !pred(
                    #[trigger] variants[k],
                ) by {
                    assert(k == 0 || k == 1);
                }
                lemma_filter_none(variants, pred);
            }
        }
    }
}

proof fn lemma_filter_two(items: Seq<JsonView>, pred: spec_fn(JsonView) -> bool, i: int, j: int)
    requires
        0 <= i < j < items.len(),
        pred(items[i]),
        pred(items[j]),
    ensures
        items.filter(pred).len() >= 2,
    decreases items.len(),
{
    reveal(Seq::filter);
    let front = items.drop_last();
    if j < front.len() {
        assert(front[i] == items[i] && front[j] == items[j]);
        lemma_filter_two(front, pred, i, j);
    } else {
        assert(front[i] == items[i]);
        lemma_filter_some(front, pred, i);
        assert(items.last() == items[j]);
    }
}

proof fn lemma_filter_some(items: Seq<JsonView>, pred: spec_fn(JsonView) -> bool, i: int)
    requires
        0 <= i < items.len(),
        pred(items[i]),
    ensures
        items.filter(pred).len() >= 1,
    decreases items.len(),
{
    reveal(Seq::filter);
    let front = items.drop_last();
    if i < front.len() {
        assert(front[i] == items[i]);
        lemma_filter_some(front, pred, i);
    } else {
        assert(items.last() == items[i]);
    }
}

} // verus!
