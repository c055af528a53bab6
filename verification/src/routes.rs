//! The HTTP API: what each route answers, given what the store and GitHub
//! say. A route that does not go through answers with a status alone.

pub mod enrollment;
pub mod hosts;
pub mod routines;
pub mod sessions;

use vstd::prelude::*;

use crate::model::{Session, WorkspaceId};
use crate::text::same_text;

verus! {

pub const OK: u16 = 200;

pub const CREATED: u16 = 201;

pub const NO_CONTENT: u16 = 204;

pub const UNAUTHORIZED: u16 = 401;

pub const NOT_FOUND: u16 = 404;

pub const CONFLICT: u16 = 409;

pub const UNPROCESSABLE_ENTITY: u16 = 422;

pub const INTERNAL_SERVER_ERROR: u16 = 500;

pub const BAD_GATEWAY: u16 = 502;

pub const SERVICE_UNAVAILABLE: u16 = 503;

/// The store failed. What went wrong is logged, not answered.
#[derive(Debug, Clone, Copy, PartialEq, Eq, Structural)]
pub struct StoreError;

/// What is answered with a value that was stored or read.
pub open spec fn answered<T>(stored: Result<T, StoreError>) -> Result<T, u16> {
    match stored {
        Ok(value) => Ok(value),
        Err(_) => Err(INTERNAL_SERVER_ERROR),
    }
}

/// What is answered with a value that may be absent.
pub open spec fn answered_if_present<T>(
    stored: Result<Option<T>, StoreError>,
    absent: u16,
) -> Result<T, u16> {
    match stored {
        Ok(Some(value)) => Ok(value),
        Ok(None) => Err(absent),
        Err(_) => Err(INTERNAL_SERVER_ERROR),
    }
}

/// A value from the store; a failure of the store is a 500.
pub fn answer<T>(stored: Result<T, StoreError>) -> (r: Result<T, u16>)
    ensures
        r == answered(stored),
{
    match stored {
        Ok(value) => Ok(value),
        Err(_) => Err(INTERNAL_SERVER_ERROR),
    }
}

/// A value from the store that may be absent; a failure of the store is a
/// 500.
pub fn answer_if_present<T>(stored: Result<Option<T>, StoreError>, absent: u16) -> (r: Result<
    T,
    u16,
>)
    ensures
        r == answered_if_present(stored, absent),
{
    match stored {
        Ok(Some(value)) => Ok(value),
        Ok(None) => Err(absent),
        Err(_) => Err(INTERNAL_SERVER_ERROR),
    }
}

/// A new value: a 201 with it, or a 500.
pub fn answer_created<T>(stored: Result<T, StoreError>) -> (r: Result<(u16, T), u16>)
    ensures
        r == match stored {
            Ok(value) => Ok::<(u16, T), u16>((CREATED, value)),
            Err(_) => Err(INTERNAL_SERVER_ERROR),
        },
{
    match stored {
        Ok(value) => Ok((CREATED, value)),
        Err(_) => Err(INTERNAL_SERVER_ERROR),
    }
}

// --- workspaces -----------------------------------------------------------

/// What belongs to a workspace.
pub trait Scoped: Sized {
    /// The name of its workspace.
    spec fn scope(&self) -> Seq<char>;

    /// Its workspace.
    fn workspace(&self) -> (r: &WorkspaceId)
        ensures
            r@ == self.scope(),
    ;
}

impl Scoped for Session {
    open spec fn scope(&self) -> Seq<char> {
        self.workspace_id@
    }

    fn workspace(&self) -> (r: &WorkspaceId) {
        &self.workspace_id
    }
}

/// The items of a workspace, in their order.
pub open spec fn scoped<T: Scoped>(items: Seq<T>, workspace: Seq<char>) -> Seq<T> {
    items.filter(|item: T| item.scope() == workspace)
}

/// An item as a workspace sees it: what belongs to another is not there.
pub open spec fn scoped_one<T: Scoped>(
    stored: Result<Option<T>, StoreError>,
    workspace: Seq<char>,
) -> Result<Option<T>, StoreError> {
    match stored {
        Ok(Some(item)) => if item.scope() == workspace {
            Ok(Some(item))
        } else {
            Ok(None)
        },
        _ => stored,
    }
}

fn belongs<T: Scoped>(item: &T, workspace: &WorkspaceId) -> (r: bool)
    ensures
        r == (item.scope() == workspace@),
{
    same_text(item.workspace().0.as_str(), workspace.0.as_str())
}

/// The items of a workspace, in their order.
pub fn own_items<T: Scoped>(items: Vec<T>, workspace: &WorkspaceId) -> (r: Vec<T>)
    ensures
        r@ == scoped(items@, workspace@),
{
    let ghost all = items@;
    let ghost wanted = |item: T| item.scope() == workspace@;
    let mut kept: Vec<T> = Vec::new();
    proof {
        reveal(Seq::filter);
        assert(all.take(0) =~= Seq::empty());
    }
    for item in it: items
        invariant
            it.seq() == all,
            wanted == (|item: T| item.scope() == workspace@),
            kept@ == all.take(it.index() as int).filter(wanted),
    {
        proof {
            reveal(Seq::filter);
            let i = it.index() as int;
            assert(all.take(i + 1).drop_last() =~= all.take(i));
            assert(all.take(i + 1).last() == item);
        }
        if belongs(&item, workspace) {
            kept.push(item);
        }
    }
    assert(all.take(all.len() as int) =~= all);
    kept
}

/// An item as a workspace sees it: what belongs to another is not there.
pub fn own_item<T: Scoped>(
    stored: Result<Option<T>, StoreError>,
    workspace: &WorkspaceId,
) -> (r: Result<Option<T>, StoreError>)
    ensures
        r == scoped_one(stored, workspace@),
{
    match stored {
        Ok(Some(item)) => if belongs(&item, workspace) {
            Ok(Some(item))
        } else {
            Ok(None)
        },
        Ok(None) => Ok(None),
        Err(error) => Err(error),
    }
}

/// No workspace sees what belongs to another, and each sees all of its own.
pub proof fn workspaces_are_apart<T: Scoped>(items: Seq<T>, workspace: Seq<char>, item: T)
    ensures
        scoped(items, workspace).contains(item) <==> items.contains(item) && item.scope()
            == workspace,
    decreases items.len(),
{
    reveal(Seq::filter);
    let kept = scoped(items, workspace);
    if items.len() > 0 {
        let front = items.drop_last();
        let less = scoped(front, workspace);
        let last = items.last();
        workspaces_are_apart(front, workspace, item);
        assert(items =~= front.push(last));
        assert(front.push(last).contains(item) <==> front.contains(item) || item == last) by {
            if front.contains(item) {
                let i = choose|i: int| 0 <= i < front.len() && front[i] == item;
                assert(front.push(last)[i] == item);
            }
            assert(front.push(last)[front.len() as int] == last);
        }
        if last.scope() == workspace {
            assert(kept =~= less.push(last));
            assert(kept[less.len() as int] == last);
            if less.contains(item) {
                let i = choose|i: int| 0 <= i < less.len() && less[i] == item;
                assert(kept[i] == item);
            }
        } else {
            assert(kept =~= less);
        }
    }
}

// --- checks before acts -----------------------------------------------------------

/// What a route does with a request that it has checked.
#[derive(Debug)]
pub enum RouteStep<A> {
    /// Act on this.
    Act(A),
    /// Answer with this status; nothing is done.
    Refuse(u16),
}

/// The act follows an `Ok` check alone; any other answers with its status.
pub open spec fn guarded<A>(checked: Result<(), u16>, act: A) -> RouteStep<A> {
    match checked {
        Ok(_) => RouteStep::Act(act),
        Err(status) => RouteStep::Refuse(status),
    }
}

/// Lets an act through when its check is `Ok`.
pub fn guard<A>(checked: Result<(), u16>, act: A) -> (r: RouteStep<A>)
    ensures
        r == guarded(checked, act),
{
    match checked {
        Ok(_) => RouteStep::Act(act),
        Err(status) => RouteStep::Refuse(status),
    }
}

/// A request that must be valid: a 422 when it is not.
pub fn check_valid(valid: bool) -> (r: Result<(), u16>)
    ensures
        r == if valid {
            Ok::<(), u16>(())
        } else {
            Err(UNPROCESSABLE_ENTITY)
        },
{
    if valid {
        Ok(())
    } else {
        Err(UNPROCESSABLE_ENTITY)
    }
}

// --- what callers see -----------------------------------------------------------

/// What the store gave is the answer, a new value with a 201; what it does not
/// have is answered with the status for that, and its failure with a 500.
pub proof fn answers_follow_the_store<T>(
    stored: Result<T, StoreError>,
    plain: Result<T, u16>,
    created: Result<(u16, T), u16>,
    maybe: Result<Option<T>, StoreError>,
    absent: u16,
    present: Result<T, u16>,
)
    requires
        call_ensures(answer::<T>, (stored,), plain),
        call_ensures(answer_created::<T>, (stored,), created),
        call_ensures(answer_if_present::<T>, (maybe, absent), present),
    ensures
        stored matches Ok(value) ==> plain == Ok::<T, u16>(value),
        stored matches Ok(value) ==> created == Ok::<(u16, T), u16>((201, value)),
        stored is Err ==> plain == Err::<T, u16>(500) && created == Err::<(u16, T), u16>(500),
        maybe matches Ok(Some(value)) ==> present == Ok::<T, u16>(value),
        maybe matches Ok(None) ==> present == Err::<T, u16>(absent),
        maybe is Err ==> present == Err::<T, u16>(500),
{
}

/// A workspace is shown its own items in the order of the store, and one item
/// only when it is its own.
pub proof fn workspaces_see_their_own<T: Scoped>(
    items: Vec<T>,
    workspace: &WorkspaceId,
    kept: Vec<T>,
    stored: Result<Option<T>, StoreError>,
    one: Result<Option<T>, StoreError>,
)
    requires
        call_ensures(own_items::<T>, (items, workspace), kept),
        call_ensures(own_item::<T>, (stored, workspace), one),
    ensures
        kept@ == items@.filter(|item: T| item.scope() == workspace@),
        stored is Err ==> one is Err,
        stored matches Ok(None) ==> (one matches Ok(None)),
        stored matches Ok(Some(item)) ==> one == Ok::<Option<T>, StoreError>(
            if item.scope() == workspace@ {
                Some(item)
            } else {
                None
            },
        ),
{
    assert(items@.filter(|item: T| item.scope() == workspace@) == scoped(items@, workspace@));
}

/// A session belongs to the workspace that it names.
pub proof fn sessions_belong_to_their_workspace(session: Session)
    ensures
        session.scope() == session.workspace_id.0@,
{
}

/// A request is acted on exactly when its check went through; one that did not
/// is answered with its status. A request that is not valid is a 422.
pub proof fn acts_need_their_check<A>(
    checked: Result<(), u16>,
    act: A,
    step: RouteStep<A>,
    valid: bool,
    verdict: Result<(), u16>,
)
    requires
        call_ensures(guard::<A>, (checked, act), step),
        call_ensures(check_valid, (valid,), verdict),
    ensures
        checked is Ok ==> step == RouteStep::Act(act),
        checked matches Err(status) ==> step == RouteStep::<A>::Refuse(status),
        valid ==> verdict is Ok,
        !valid ==> verdict == Err::<(), u16>(422),
{
}

} // verus!
