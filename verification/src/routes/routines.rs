//! Routines: sessions on a schedule.

use vstd::prelude::*;

use crate::model::{Agent, Environment, Session, WorkspaceId};
use crate::routes::{
    answer, answer_created, answer_if_present, answered_if_present, check_valid, guard, guarded,
    own_item, own_items, scoped, scoped_one, RouteStep, Scoped, StoreError, CREATED,
    INTERNAL_SERVER_ERROR, NOT_FOUND, NO_CONTENT, UNPROCESSABLE_ENTITY,
};
use crate::time::Timestamp;

verus! {

/// What a routine's sessions are made of.
#[derive(Debug)]
pub struct SessionSpec {
    pub agent: Agent,
    pub environment: Environment,
    pub input: String,
}

/// A session on a schedule.
#[derive(Debug)]
pub struct Routine {
    pub id: String,
    pub workspace_id: WorkspaceId,
    pub name: String,
    pub cron: String,
    pub timezone: String,
    pub spec: SessionSpec,
    pub enabled: bool,
    pub next_run_at: Option<Timestamp>,
}

impl Scoped for Routine {
    open spec fn scope(&self) -> Seq<char> {
        self.workspace_id@
    }

    fn workspace(&self) -> (r: &WorkspaceId) {
        &self.workspace_id
    }
}

/// Create a routine. The schedule is a flat `cron` + `timezone` pair, like the
/// [`Routine`] that comes back.
#[derive(Debug)]
pub struct CreateRoutineRequest {
    pub name: String,
    /// Standard 5-field cron expression.
    pub cron: String,
    /// IANA timezone name (e.g. "America/New_York") the cron is interpreted in.
    pub timezone: String,
    pub spec: SessionSpec,
}

/// A partial update: only the `Some` fields change.
#[derive(Debug)]
pub struct UpdateRoutineRequest {
    pub name: Option<String>,
    pub cron: Option<String>,
    pub timezone: Option<String>,
    pub spec: Option<SessionSpec>,
    pub enabled: Option<bool>,
}

/// All routines of a workspace.
#[derive(Debug)]
pub struct ListRoutinesResponse {
    pub routines: Vec<Routine>,
}

/// The sessions that a routine spawned.
#[derive(Debug)]
pub struct ListRunsResponse {
    pub sessions: Vec<Session>,
}

/// A routine may be created: its environment is valid, its schedule is not too
/// dense, and it has a next run in its timezone. Validated up front so a bad
/// spec or schedule is a 422, not a 500.
pub fn check_routine(
    environment_valid: bool,
    interval_valid: bool,
    schedule_valid: bool,
) -> (r: Result<(), u16>)
    ensures
        r == routine_checked(environment_valid, interval_valid, schedule_valid),
{
    check_valid(environment_valid && interval_valid && schedule_valid)
}

/// The check that a routine passes before it is created.
pub open spec fn routine_checked(
    environment_valid: bool,
    interval_valid: bool,
    schedule_valid: bool,
) -> Result<(), u16> {
    if environment_valid && interval_valid && schedule_valid {
        Ok(())
    } else {
        Err(UNPROCESSABLE_ENTITY)
    }
}

/// A routine that is to be created: it is stored only when it passes its
/// check.
pub fn begin_create_routine(
    request: CreateRoutineRequest,
    environment_valid: bool,
    interval_valid: bool,
    schedule_valid: bool,
) -> (r: RouteStep<CreateRoutineRequest>)
    ensures
        r == guarded(
            routine_checked(environment_valid, interval_valid, schedule_valid),
            request,
        ),
{
    guard(check_routine(environment_valid, interval_valid, schedule_valid), request)
}

/// Creates a routine that was checked.
pub fn create_routine(stored: Result<Routine, StoreError>) -> (r: Result<(u16, Routine), u16>)
    ensures
        r == match stored {
            Ok(routine) => Ok::<(u16, Routine), u16>((CREATED, routine)),
            Err(_) => Err(INTERNAL_SERVER_ERROR),
        },
{
    answer_created(stored)
}

/// The routines of the caller's workspace, in the store's order.
pub fn list_routines(
    workspace: &WorkspaceId,
    stored: Result<Vec<Routine>, StoreError>,
) -> (r: Result<ListRoutinesResponse, u16>)
    ensures
        match stored {
            Ok(routines) => r matches Ok(listed) && listed.routines@ == scoped(
                routines@,
                workspace@,
            ),
            Err(_) => r matches Err(status) && status == INTERNAL_SERVER_ERROR,
        },
{
    match answer(stored) {
        Ok(routines) => Ok(ListRoutinesResponse { routines: own_items(routines, workspace) }),
        Err(status) => Err(status),
    }
}

/// One routine of the caller's workspace.
pub fn get_routine(
    workspace: &WorkspaceId,
    stored: Result<Option<Routine>, StoreError>,
) -> (r: Result<Routine, u16>)
    ensures
        r == answered_if_present(scoped_one(stored, workspace@), NOT_FOUND),
{
    answer_if_present(own_item(stored, workspace), NOT_FOUND)
}

/// The check that a change to a routine passes before it is tried.
pub open spec fn update_checked(
    interval_valid: Option<bool>,
    environment_valid: Option<bool>,
    known: Result<bool, StoreError>,
) -> Result<(), u16> {
    if interval_valid == Some(false) || environment_valid == Some(false) {
        Err(UNPROCESSABLE_ENTITY)
    } else {
        match known {
            Ok(true) => Ok(()),
            Ok(false) => Err(NOT_FOUND),
            Err(_) => Err(INTERNAL_SERVER_ERROR),
        }
    }
}

/// A change to a routine may be tried: a changed schedule is not too dense, a
/// changed environment is valid, and the routine exists. `None` stands for
/// what does not change.
pub fn check_update(
    interval_valid: Option<bool>,
    environment_valid: Option<bool>,
    known: Result<bool, StoreError>,
) -> (r: Result<(), u16>)
    ensures
        r == update_checked(interval_valid, environment_valid, known),
{
    match interval_valid {
        Some(valid) => if !valid {
            return Err(UNPROCESSABLE_ENTITY);
        },
        None => {},
    }
    match environment_valid {
        Some(valid) => if !valid {
            return Err(UNPROCESSABLE_ENTITY);
        },
        None => {},
    }
    match known {
        Ok(found) => if found {
            Ok(())
        } else {
            Err(NOT_FOUND)
        },
        Err(_) => Err(INTERNAL_SERVER_ERROR),
    }
}

/// A routine that is to be changed: the change is stored only when it passes
/// its check.
pub fn begin_update_routine(
    change: UpdateRoutineRequest,
    interval_valid: Option<bool>,
    environment_valid: Option<bool>,
    known: Result<bool, StoreError>,
) -> (r: RouteStep<UpdateRoutineRequest>)
    ensures
        r == guarded(update_checked(interval_valid, environment_valid, known), change),
{
    guard(check_update(interval_valid, environment_valid, known), change)
}

/// Changes a routine that was checked. On an existing routine the only
/// expected error is a bad schedule, so any error is a 422 (not a 500).
pub fn update_routine(stored: Result<Option<Routine>, StoreError>) -> (r: Result<Routine, u16>)
    ensures
        r == match stored {
            Ok(Some(routine)) => Ok::<Routine, u16>(routine),
            Ok(None) => Err(NOT_FOUND),
            Err(_) => Err(UNPROCESSABLE_ENTITY),
        },
{
    match stored {
        Ok(Some(routine)) => Ok(routine),
        Ok(None) => Err(NOT_FOUND),
        Err(_) => Err(UNPROCESSABLE_ENTITY),
    }
}

/// Deletes a routine, whether or not it was there.
pub fn delete_routine(stored: Result<(), StoreError>) -> (r: Result<u16, u16>)
    ensures
        r == match stored {
            Ok(_) => Ok::<u16, u16>(NO_CONTENT),
            Err(_) => Err(INTERNAL_SERVER_ERROR),
        },
{
    match answer(stored) {
        Ok(_) => Ok(NO_CONTENT),
        Err(status) => Err(status),
    }
}

/// Runs a routine off schedule.
pub fn run_routine(stored: Result<Option<Session>, StoreError>) -> (r: Result<(u16, Session), u16>)
    ensures
        r == match stored {
            Ok(Some(session)) => Ok::<(u16, Session), u16>((CREATED, session)),
            Ok(None) => Err(NOT_FOUND),
            Err(_) => Err(INTERNAL_SERVER_ERROR),
        },
{
    match answer_if_present(stored, NOT_FOUND) {
        Ok(session) => Ok((CREATED, session)),
        Err(status) => Err(status),
    }
}

/// The routine's runs (sessions it spawned): an unknown routine is a 404, one
/// with no runs yet an empty list. `stored` is not asked for when the routine
/// is unknown.
pub fn list_routine_runs(
    known: Result<bool, StoreError>,
    stored: Option<Result<Vec<Session>, StoreError>>,
) -> (r: Result<ListRunsResponse, u16>)
    requires
        known == Ok::<bool, StoreError>(true) ==> stored is Some,
    ensures
        r == match known {
            Err(_) => Err::<ListRunsResponse, u16>(INTERNAL_SERVER_ERROR),
            Ok(false) => Err(NOT_FOUND),
            Ok(true) => match stored->0 {
                Ok(sessions) => Ok(ListRunsResponse { sessions }),
                Err(_) => Err(INTERNAL_SERVER_ERROR),
            },
        },
{
    match known {
        Err(_) => Err(INTERNAL_SERVER_ERROR),
        Ok(found) => {
            if !found {
                return Err(NOT_FOUND);
            }
            match stored {
                Some(Ok(sessions)) => Ok(ListRunsResponse { sessions }),
                _ => Err(INTERNAL_SERVER_ERROR),
            }
        },
    }
}

/// A routine is created when its environment, its interval and its schedule
/// are all valid; otherwise the request is a 422 and nothing is stored.
pub proof fn routines_are_valid_in_every_respect(
    request: CreateRoutineRequest,
    environment_valid: bool,
    interval_valid: bool,
    schedule_valid: bool,
    step: RouteStep<CreateRoutineRequest>,
)
    requires
        call_ensures(
            begin_create_routine,
            (request, environment_valid, interval_valid, schedule_valid),
            step,
        ),
    ensures
        environment_valid && interval_valid && schedule_valid ==> step == RouteStep::Act(request),
        !environment_valid || !interval_valid || !schedule_valid ==> step == RouteStep::<
            CreateRoutineRequest,
        >::Refuse(422),
{
}

/// A change to a routine is tried when nothing that changes is invalid, which
/// is a 422, and the routine exists, which it is a 404 when it does not.
pub proof fn changes_need_a_known_routine(
    change: UpdateRoutineRequest,
    interval_valid: Option<bool>,
    environment_valid: Option<bool>,
    known: Result<bool, StoreError>,
    step: RouteStep<UpdateRoutineRequest>,
)
    requires
        call_ensures(
            begin_update_routine,
            (change, interval_valid, environment_valid, known),
            step,
        ),
    ensures
        ({
            let invalid = (interval_valid matches Some(v) && !v) || (environment_valid matches Some(
                v,
            ) && !v);
            &&& invalid ==> step == RouteStep::<UpdateRoutineRequest>::Refuse(422)
            &&& !invalid ==> match known {
                Ok(found) => step == if found {
                    RouteStep::Act(change)
                } else {
                    RouteStep::Refuse(404)
                },
                Err(_) => step == RouteStep::<UpdateRoutineRequest>::Refuse(500),
            }
        }),
{
}

/// What the routine routes answer about what was stored.
pub proof fn routines_are_answered(
    created: Result<Routine, StoreError>,
    create: Result<(u16, Routine), u16>,
    workspace: &WorkspaceId,
    stored: Result<Vec<Routine>, StoreError>,
    listed: Result<ListRoutinesResponse, u16>,
    one: Result<Option<Routine>, StoreError>,
    got: Result<Routine, u16>,
    updated: Result<Routine, u16>,
    deleted: Result<(), StoreError>,
    delete: Result<u16, u16>,
)
    requires
        call_ensures(create_routine, (created,), create),
        call_ensures(list_routines, (workspace, stored), listed),
        call_ensures(get_routine, (workspace, one), got),
        call_ensures(update_routine, (one,), updated),
        call_ensures(delete_routine, (deleted,), delete),
    ensures
        match created {
            Ok(routine) => create == Ok::<(u16, Routine), u16>((201, routine)),
            Err(_) => create matches Err(status) && status == 500,
        },
        match stored {
            Ok(routines) => listed matches Ok(own) && own.routines@ == routines@.filter(
                |routine: Routine| routine.workspace_id@ == workspace@,
            ),
            Err(_) => listed matches Err(status) && status == 500,
        },
        match one {
            Ok(Some(routine)) => got == (if routine.workspace_id@ == workspace@ {
                Ok::<Routine, u16>(routine)
            } else {
                Err(404)
            }) && updated == Ok::<Routine, u16>(routine),
            Ok(None) => got == Err::<Routine, u16>(404) && updated == Err::<Routine, u16>(404),
            Err(_) => got == Err::<Routine, u16>(500) && updated == Err::<Routine, u16>(422),
        },
        match deleted {
            Ok(_) => delete == Ok::<u16, u16>(204),
            Err(_) => delete == Err::<u16, u16>(500),
        },
{
    let own = |routine: Routine| routine.workspace_id@ == workspace@;
    assert(own =~= (|item: Routine| item.scope() == workspace@));
}

/// A routine that is run by hand gives a new session, and its runs are all the
/// sessions that the store has of it; an unknown routine is a 404.
pub proof fn runs_of_routines_are_answered(
    spawned: Result<Option<Session>, StoreError>,
    run: Result<(u16, Session), u16>,
    known: Result<bool, StoreError>,
    stored: Option<Result<Vec<Session>, StoreError>>,
    listed: Result<ListRunsResponse, u16>,
)
    requires
        call_ensures(run_routine, (spawned,), run),
        known == Ok::<bool, StoreError>(true) ==> stored is Some,
        call_ensures(list_routine_runs, (known, stored), listed),
    ensures
        match spawned {
            Ok(Some(session)) => run == Ok::<(u16, Session), u16>((201, session)),
            Ok(None) => run == Err::<(u16, Session), u16>(404),
            Err(_) => run == Err::<(u16, Session), u16>(500),
        },
        known is Err ==> listed == Err::<ListRunsResponse, u16>(500),
        known == Ok::<bool, StoreError>(false) ==> listed == Err::<ListRunsResponse, u16>(404),
        known == Ok::<bool, StoreError>(true) ==> match stored->0 {
            Ok(sessions) => listed matches Ok(runs) && runs.sessions == sessions,
            Err(_) => listed == Err::<ListRunsResponse, u16>(500),
        },
{
}

} // verus!
