//! Background PR tracking.
//!
//! Every tick the poller takes the sessions whose PR is still open, observes
//! each PR on GitHub, reduces the observation to a state and, when it differs
//! from the stored snapshot, writes the new snapshot together with the
//! transition events in one transaction. A quiet tick only touches
//! `last_synced_at`.
//!
//! Multiple server instances split the work through a row lock; transitions
//! are compare-then-write against the locked snapshot, so a double poll is
//! harmless anyway.

use vstd::prelude::*;

use crate::github::{pull_of, GithubError, PullRef};
use crate::json::{object1, text_value, with_member, Json, JsonView};
use crate::model::{
    checks_name, pr_state_name, ChecksState, PrState, PrStatus, Session, SessionOutcome,
};
use crate::table::Table;
use crate::time::{Span, Timestamp};

verus! {

/// Consecutive 403/404 responses before a session is marked `sync_error`.
/// One-off blips (token rotation, replication lag) retry silently.
pub const SYNC_ERROR_THRESHOLD: u32 = 3;

/// Upper bound on sessions processed per tick per instance.
pub const WORK_LIST_LIMIT: i64 = 200;

/// How long to wait when GitHub rate-limits us and gives no reset time, in
/// nanoseconds.
pub const DEFAULT_BACKOFF_NANOS: u128 = 60_000_000_000;

// --- transitions -----------------------------------------------------------

/// The event of a change from one state to another.
pub open spec fn change_event(
    kind: Seq<char>,
    from: Option<Seq<char>>,
    to: Option<Seq<char>>,
) -> JsonView {
    JsonView::Object(
        seq![
            ("type"@, JsonView::Text(kind)),
            (
                "from"@,
                match from {
                    Some(name) => JsonView::Text(name),
                    None => JsonView::Null,
                },
            ),
            (
                "to"@,
                match to {
                    Some(name) => JsonView::Text(name),
                    None => JsonView::Null,
                },
            ),
        ],
    )
}

/// The state before, when there was a snapshot.
pub open spec fn state_before(previous: Option<PrStatus>) -> Option<PrState> {
    match previous {
        Some(p) => Some(p.state),
        None => None,
    }
}

/// The checks before, when they were known.
pub open spec fn checks_before(previous: Option<PrStatus>) -> Option<ChecksState> {
    match previous {
        Some(p) => p.checks,
        None => None,
    }
}

/// The name of optional checks.
pub open spec fn optional_checks_name(checks: Option<ChecksState>) -> Option<Seq<char>> {
    match checks {
        Some(c) => Some(checks_name(c)),
        None => None,
    }
}

/// The name of an optional state.
pub open spec fn optional_state_name(state: Option<PrState>) -> Option<Seq<char>> {
    match state {
        Some(s) => Some(pr_state_name(s)),
        None => None,
    }
}

/// The events of a new observation: one for each of state and checks that
/// changed, the state first.
pub open spec fn change_events(
    previous: Option<PrStatus>,
    state: PrState,
    checks: Option<ChecksState>,
) -> Seq<JsonView> {
    (if state_before(previous) != Some(state) {
        seq![
            change_event(
                "pr_state_changed"@,
                optional_state_name(state_before(previous)),
                Some(pr_state_name(state)),
            ),
        ]
    } else {
        Seq::empty()
    }) + (if checks_before(previous) != checks {
        seq![
            change_event(
                "checks_state_changed"@,
                optional_checks_name(checks_before(previous)),
                optional_checks_name(checks),
            ),
        ]
    } else {
        Seq::empty()
    })
}

/// The views of events.
pub open spec fn json_views(events: Seq<Json>) -> Seq<JsonView> {
    Seq::new(events.len(), |i: int| events[i]@)
}

fn named(name: Option<&'static str>) -> (r: Json)
    ensures
        r@ == match name {
            Some(n) => JsonView::Text(n@),
            None => JsonView::Null,
        },
{
    match name {
        Some(n) => text_value(n),
        None => Json::Null,
    }
}

fn event(kind: &str, from: Option<&'static str>, to: Option<&'static str>) -> (r: Json)
    ensures
        r@ == change_event(
            kind@,
            match from {
                Some(n) => Some(n@),
                None => None,
            },
            match to {
                Some(n) => Some(n@),
                None => None,
            },
        ),
{
    let r: Json = with_member(
        with_member(object1("type", text_value(kind)), "from", named(from)),
        "to",
        named(to),
    );
    assert(r@->Object_0 =~= change_event(
        kind@,
        match from {
            Some(n) => Some(n@),
            None => None,
        },
        match to {
            Some(n) => Some(n@),
            None => None,
        },
    )->Object_0);
    r
}

fn checks_text(checks: Option<ChecksState>) -> (r: Option<&'static str>)
    ensures
        match r {
            Some(n) => optional_checks_name(checks) == Some(n@),
            None => checks is None,
        },
{
    match checks {
        Some(c) => Some(c.as_str()),
        None => None,
    }
}

/// The events of a new observation.
pub fn transitions(
    previous: Option<PrStatus>,
    state: PrState,
    checks: Option<ChecksState>,
) -> (r: Vec<Json>)
    ensures
        json_views(r@) == change_events(previous, state, checks),
{
    let (old_state, old_checks): (Option<PrState>, Option<ChecksState>) = match previous {
        Some(p) => (Some(p.state), p.checks),
        None => (None, None),
    };
    let mut out: Vec<Json> = Vec::new();
    let state_changed: bool = match old_state {
        Some(s) => s != state,
        None => true,
    };
    if state_changed {
        let from: Option<&'static str> = match old_state {
            Some(s) => Some(s.as_str()),
            None => None,
        };
        out.push(event("pr_state_changed", from, Some(state.as_str())));
    }
    let checks_changed: bool = match (old_checks, checks) {
        (Some(a), Some(b)) => a != b,
        (None, None) => false,
        _ => true,
    };
    if checks_changed {
        out.push(event("checks_state_changed", checks_text(old_checks), checks_text(checks)));
    }
    assert(json_views(out@) =~= change_events(previous, state, checks));
    out
}

/// A quiet observation has no event, and only what changed has one.
pub proof fn only_changes_are_events(
    previous: Option<PrStatus>,
    state: PrState,
    checks: Option<ChecksState>,
)
    ensures
        ({
            let events = change_events(previous, state, checks);
            let state_changed = state_before(previous) != Some(state);
            let checks_changed = checks_before(previous) != checks;
            &&& events.len() == (if state_changed {
                1int
            } else {
                0
            }) + (if checks_changed {
                1int
            } else {
                0
            })
            &&& events.len() == 0 <==> !state_changed && !checks_changed
        }),
{
}

/// Observing the same again after a write has no event: double polls are
/// harmless.
pub proof fn repeated_observation_is_quiet(
    state: PrState,
    checks: Option<ChecksState>,
    at: Timestamp,
)
    ensures
        change_events(
            Some(PrStatus { state, checks, last_synced_at: at }),
            state,
            checks,
        ) =~= Seq::empty(),
{
}

// --- one session -----------------------------------------------------------

/// A snapshot to write, together with its events.
#[derive(Debug)]
pub struct Commit {
    pub status: PrStatus,
    pub events: Vec<Json>,
}

/// What is written when the pull request was observed.
pub fn observed_commit(
    previous: Option<PrStatus>,
    state: PrState,
    checks: Option<ChecksState>,
    now: Timestamp,
) -> (r: Commit)
    ensures
        r.status == (PrStatus { state, checks, last_synced_at: now }),
        json_views(r.events@) == change_events(previous, state, checks),
{
    Commit {
        status: PrStatus { state, checks, last_synced_at: now },
        events: transitions(previous, state, checks),
    }
}

/// Write `state` keeping the previously observed checks (we learned nothing
/// new about them), appending a transition event if the state changed.
pub fn write_state(previous: Option<PrStatus>, state: PrState, now: Timestamp) -> (r: Commit)
    ensures
        r.status == (PrStatus { state, checks: checks_before(previous), last_synced_at: now }),
        json_views(r.events@) == change_events(previous, state, checks_before(previous)),
{
    let checks: Option<ChecksState> = match previous {
        Some(p) => p.checks,
        None => None,
    };
    observed_commit(previous, state, checks, now)
}

/// The pull request that a session's outcome names.
pub open spec fn tracked_pull(outcome: Option<SessionOutcome>) -> Option<(
    Seq<char>,
    Seq<char>,
    nat,
)> {
    match outcome {
        Some(o) => match o.pr_url {
            Some(url) => pull_of(url@),
            None => None,
        },
        None => None,
    }
}

/// The pull request that a session's outcome names.
pub fn pr_ref(outcome: &Option<SessionOutcome>) -> (r: Option<PullRef>)
    ensures
        match r {
            Some(p) => tracked_pull(*outcome) == Some((p.owner@, p.repo@, p.number as nat)),
            None => tracked_pull(*outcome) is None,
        },
{
    match outcome {
        Some(o) => match &o.pr_url {
            Some(url) => PullRef::parse(url.as_str()),
            None => None,
        },
        None => None,
    }
}

/// What the sync of a session begins with.
#[derive(Debug)]
pub enum SyncPlan {
    /// Nothing: the session is left for the next tick.
    Skip,
    /// The snapshot is written at once.
    Write(Commit),
    /// The pull request is observed.
    Observe(PullRef),
}

/// Begins the sync of a session, given whether GitHub can be asked and the
/// session when its row could be locked. An outcome whose pull request cannot
/// be told will not become readable later, so it is marked at once.
pub fn begin_sync(configured: bool, locked: Option<&Session>, now: Timestamp) -> (r: SyncPlan)
    ensures
        match (configured, locked) {
            (true, Some(session)) => match tracked_pull(session.outcome) {
                Some(pull) => r matches SyncPlan::Observe(pr) && pull == (
                    pr.owner@,
                    pr.repo@,
                    pr.number as nat,
                ),
                None => {
                    &&& r matches SyncPlan::Write(commit)
                    &&& commit.status == (PrStatus {
                        state: PrState::SyncError,
                        checks: checks_before(session.pr_status),
                        last_synced_at: now,
                    })
                    &&& json_views(commit.events@) == change_events(
                        session.pr_status,
                        PrState::SyncError,
                        checks_before(session.pr_status),
                    )
                },
            },
            _ => r is Skip,
        },
{
    if !configured {
        return SyncPlan::Skip;
    }
    match locked {
        Some(session) => match pr_ref(&session.outcome) {
            Some(pr) => SyncPlan::Observe(pr),
            None => SyncPlan::Write(write_state(session.pr_status, PrState::SyncError, now)),
        },
        None => SyncPlan::Skip,
    }
}

/// What a failed observation leads to.
#[derive(Debug)]
pub enum SyncStep {
    /// The snapshot is written.
    Write(Commit),
    /// The session is left for the next tick.
    Skip,
    /// So is everything else: GitHub limits the rate, until this instant.
    RateLimited(Option<Timestamp>),
}

/// How the sync of one session ended.
#[derive(Debug, Clone, Copy, PartialEq, Eq, Structural)]
pub enum SyncResult {
    /// The snapshot was written.
    Synced,
    /// Row locked by another instance, no longer tracked, fetch failed, no
    /// credential.
    Skipped,
    /// GitHub limits the rate, until this instant.
    RateLimited(Option<Timestamp>),
}

/// How a sync ends whose snapshot was to be written.
pub fn after_write(written: bool) -> (r: SyncResult)
    ensures
        r == if written {
            SyncResult::Synced
        } else {
            SyncResult::Skipped
        },
{
    if written {
        SyncResult::Synced
    } else {
        SyncResult::Skipped
    }
}

/// Failures so far of one session.
pub open spec fn failures_of(failures: Map<Seq<char>, u32>, id: Seq<char>) -> int {
    if failures.contains_key(id) {
        failures[id] as int
    } else {
        0
    }
}

/// Follows pull requests until they merge or close.
#[derive(Debug)]
pub struct PrPoller {
    interval: Span,
    /// Consecutive not-visible failures per session id.
    failures: Table<u32>,
}

impl PrPoller {
    /// Consecutive not-visible failures per session id.
    pub closed spec fn failing(&self) -> Map<Seq<char>, u32> {
        self.failures@
    }

    /// Time between two ticks.
    pub closed spec fn pause(&self) -> Span {
        self.interval
    }

    /// A poller that ticks every `interval`.
    pub fn new(interval: Span) -> (r: PrPoller)
        ensures
            r.failing() == Map::<Seq<char>, u32>::empty(),
            r.pause() == interval,
    {
        PrPoller { interval, failures: Table::new() }
    }

    /// Consecutive not-visible failures of a session.
    pub fn failure_count(&self, id: &str) -> (r: u32)
        ensures
            r == failures_of(self.failing(), id@),
    {
        match self.failures.get(id) {
            Some(n) => *n,
            None => 0,
        }
    }

    /// Goes on after the pull request of a session was observed and reduced to
    /// its state and checks: the failures are forgotten and the snapshot is
    /// written.
    pub fn observed(
        &mut self,
        id: &str,
        previous: Option<PrStatus>,
        state: PrState,
        checks: Option<ChecksState>,
        now: Timestamp,
    ) -> (r: Commit)
        ensures
            final(self).failing() == old(self).failing().remove(id@),
            final(self).pause() == old(self).pause(),
            r.status == (PrStatus { state, checks, last_synced_at: now }),
            json_views(r.events@) == change_events(previous, state, checks),
    {
        self.failures.remove(id);
        observed_commit(previous, state, checks, now)
    }

    /// Goes on after the pull request of a session could not be observed. A
    /// rate limit ends the tick; a pull request that stays out of sight is
    /// marked; anything else is retried at the next tick. Only consecutive
    /// failures of that kind count: any other failure forgets them.
    pub fn failed(
        &mut self,
        id: &str,
        previous: Option<PrStatus>,
        error: &GithubError,
        now: Timestamp,
    ) -> (r: SyncStep)
        requires
            error.not_visible() ==> failures_of(old(self).failing(), id@) < u32::MAX,
        ensures
            final(self).pause() == old(self).pause(),
            final(self).failing() == if error.not_visible() {
                old(self).failing().insert(
                    id@,
                    (failures_of(old(self).failing(), id@) + 1) as u32,
                )
            } else {
                old(self).failing().remove(id@)
            },
            match error.limited_until() {
                Some(reset_at) => r == SyncStep::RateLimited(reset_at),
                None => if error.not_visible() && failures_of(old(self).failing(), id@) + 1
                    >= SYNC_ERROR_THRESHOLD {
                    &&& r matches SyncStep::Write(commit)
                    &&& commit.status == (PrStatus {
                        state: PrState::SyncError,
                        checks: checks_before(previous),
                        last_synced_at: now,
                    })
                    &&& json_views(commit.events@) == change_events(
                        previous,
                        PrState::SyncError,
                        checks_before(previous),
                    )
                } else {
                    r is Skip
                },
            },
    {
        if error.is_not_visible() {
            let count: u32 = self.failure_count(id) + 1;
            self.failures.insert(id, count);
            if count >= SYNC_ERROR_THRESHOLD {
                return SyncStep::Write(write_state(previous, PrState::SyncError, now));
            }
            return SyncStep::Skip;
        }
        self.failures.remove(id);
        match error.rate_limit_reset() {
            Some(reset_at) => SyncStep::RateLimited(reset_at),
            None => SyncStep::Skip,
        }
    }

    /// How long to wait after a tick: at least until GitHub's rate limit is
    /// over.
    pub fn wait_after(&self, report: &TickReport) -> (r: Span)
        ensures
            r.nanos == match report.backoff {
                Some(backoff) => if backoff.nanos > self.pause().nanos {
                    backoff.nanos
                } else {
                    self.pause().nanos
                },
                None => self.pause().nanos,
            },
    {
        match report.backoff {
            Some(backoff) => if backoff.nanos > self.interval.nanos {
                backoff
            } else {
                self.interval
            },
            None => self.interval,
        }
    }
}

/// What happens when a session's pull request is looked at.
pub enum Look {
    /// It was observed.
    Observed,
    /// It could not be observed for this reason.
    Failed(GithubError),
}

/// The look found the pull request out of sight.
pub open spec fn out_of_sight(look: Look) -> bool {
    look matches Look::Failed(error) && error.not_visible()
}

/// The failures of one session after some looks at its pull request: those
/// since it was last anything but out of sight.
pub open spec fn failures_after(looks: Seq<Look>) -> int
    decreases looks.len(),
{
    if looks.len() == 0 || !out_of_sight(looks.last()) {
        0
    } else {
        failures_after(looks.drop_last()) + 1
    }
}

/// A session is marked only after enough consecutive failures: it counts `n`
/// of them exactly when each of the last `n` looks found its pull request out
/// of sight.
pub proof fn marking_needs_consecutive_failures(looks: Seq<Look>, n: int)
    requires
        0 <= n <= looks.len(),
    ensures
        0 <= failures_after(looks) <= looks.len(),
        failures_after(looks) >= n <==> (forall|i: int|
            looks.len() - n <= i < looks.len() ==> out_of_sight(#[trigger] looks[i])),
    decreases looks.len(),
{
    if looks.len() > 0 {
        let front = looks.drop_last();
        marking_needs_consecutive_failures(
            front,
            if n > 0 {
                n - 1
            } else {
                0
            },
        );
        assert(looks[looks.len() - 1] == looks.last());
        if n > 0 && out_of_sight(looks.last()) {
            if forall|i: int|
                looks.len() - n <= i < looks.len() ==> out_of_sight(#[trigger] looks[i]) {
                assert forall|i: int| front.len() - (n - 1) <= i < front.len() implies
                    out_of_sight(#[trigger] front[i]) by {
                    assert(out_of_sight(looks[i]));
                }
            }
            if failures_after(looks) >= n {
                assert forall|i: int| looks.len() - n <= i < looks.len() implies out_of_sight(
                    #[trigger] looks[i],
                ) by {
                    if i < front.len() {
                        assert(out_of_sight(front[i]));
                    }
                }
            }
        }
    }
}

// --- one tick -----------------------------------------------------------

/// What a tick did.
#[derive(Debug, Clone, Copy, PartialEq, Eq, Structural)]
pub struct TickReport {
    /// Sessions whose snapshot was written (changed or merely touched).
    pub synced: usize,
    /// Sessions skipped: locked elsewhere, fetch failed, no credential.
    pub skipped: usize,
    /// Set when GitHub rate-limited the tick; the rest of the work list was
    /// left for the next tick and the caller should wait at least this long.
    pub backoff: Option<Span>,
}

impl Default for TickReport {
    fn default() -> (r: TickReport)
        ensures
            r == (TickReport { synced: 0, skipped: 0, backoff: None }),
    {
        TickReport { synced: 0, skipped: 0, backoff: None }
    }
}

/// How long GitHub's rate limit lasts: until it is reset, or a minute when
/// that is not known or already past.
pub open spec fn backoff_for(reset_at: Option<Timestamp>, now: Timestamp) -> int {
    match reset_at {
        Some(reset) => if reset.instant() >= now.instant() {
            reset.instant() - now.instant()
        } else {
            DEFAULT_BACKOFF_NANOS as int
        },
        None => DEFAULT_BACKOFF_NANOS as int,
    }
}

/// The report after one more session.
pub open spec fn counted(report: TickReport, result: SyncResult, now: Timestamp) -> TickReport {
    match result {
        SyncResult::Synced => TickReport { synced: (report.synced + 1) as usize, ..report },
        SyncResult::Skipped => TickReport { skipped: (report.skipped + 1) as usize, ..report },
        SyncResult::RateLimited(reset_at) => TickReport {
            skipped: (report.skipped + 1) as usize,
            backoff: Some(Span { nanos: backoff_for(reset_at, now) as u128 }),
            ..report
        },
    }
}

impl TickReport {
    /// Counts one more session; true when the tick goes on with the next one.
    pub fn count(&mut self, result: SyncResult, now: &Timestamp) -> (goes_on: bool)
        requires
            old(self).synced + old(self).skipped < usize::MAX,
        ensures
            *final(self) == counted(*old(self), result, *now),
            goes_on <==> result !is RateLimited,
    {
        match result {
            SyncResult::Synced => {
                self.synced = self.synced + 1;
                true
            },
            SyncResult::Skipped => {
                self.skipped = self.skipped + 1;
                true
            },
            SyncResult::RateLimited(reset_at) => {
                self.skipped = self.skipped + 1;
                let until_reset: Span = match reset_at {
                    Some(reset) => match reset.since(now) {
                        Some(span) => span,
                        None => Span { nanos: DEFAULT_BACKOFF_NANOS },
                    },
                    None => Span { nanos: DEFAULT_BACKOFF_NANOS },
                };
                self.backoff = Some(until_reset);
                false
            },
        }
    }
}

/// The report of a tick over sessions that end with these results: the tick
/// stops at the first rate limit.
pub open spec fn tick_report(results: Seq<SyncResult>, now: Timestamp) -> TickReport
    decreases results.len(),
{
    if results.len() == 0 {
        TickReport { synced: 0, skipped: 0, backoff: None }
    } else {
        let before = tick_report(results.drop_last(), now);
        if before.backoff is Some {
            before
        } else {
            counted(before, results.last(), now)
        }
    }
}

/// A tick without a rate limit counts every session once and asks for no
/// backoff.
pub proof fn every_session_is_counted(results: Seq<SyncResult>, now: Timestamp)
    requires
        results.len() <= usize::MAX,
        forall|i: int| 0 <= i < results.len() ==> (#[trigger] results[i]) !is RateLimited,
    ensures
        tick_report(results, now).backoff is None,
        tick_report(results, now).synced + tick_report(results, now).skipped == results.len(),
    decreases results.len(),
{
    if results.len() > 0 {
        let front = results.drop_last();
        assert forall|i: int| 0 <= i < front.len() implies (#[trigger] front[i])
            !is RateLimited by {
            assert(results[i] !is RateLimited);
        }
        every_session_is_counted(front, now);
        assert(results[results.len() - 1] !is RateLimited);
    }
}

/// A rate limit leaves the rest of the work list for the next tick: what comes
/// after it does not count.
pub proof fn rate_limit_ends_the_tick(
    before: Seq<SyncResult>,
    reset_at: Option<Timestamp>,
    rest: Seq<SyncResult>,
    now: Timestamp,
)
    ensures
        tick_report(before.push(SyncResult::RateLimited(reset_at)) + rest, now) == tick_report(
            before.push(SyncResult::RateLimited(reset_at)),
            now,
        ),
        tick_report(before.push(SyncResult::RateLimited(reset_at)), now).backoff is Some,
    decreases rest.len(),
{
    let stopped = before.push(SyncResult::RateLimited(reset_at));
    assert(stopped.drop_last() =~= before);
    if rest.len() == 0 {
        assert(stopped + rest =~= stopped);
    } else {
        rate_limit_ends_the_tick(before, reset_at, rest.drop_last(), now);
        assert((stopped + rest).drop_last() =~= stopped + rest.drop_last());
    }
}

// --- what callers see -----------------------------------------------------------

/// Every change of the state is an event that names the state before and the
/// state now, and so is every change of the checks; the state's comes first,
/// and what did not change has none.
pub proof fn changes_are_told_from_before_to_after(
    previous: Option<PrStatus>,
    state: PrState,
    checks: Option<ChecksState>,
    events: Vec<Json>,
)
    requires
        call_ensures(transitions, (previous, state, checks), events),
    ensures
        ({
            let was = match previous {
                Some(p) => JsonView::Text(pr_state_name(p.state)),
                None => JsonView::Null,
            };
            let checks_were = match previous {
                Some(PrStatus { checks: Some(c), .. }) => JsonView::Text(checks_name(c)),
                _ => JsonView::Null,
            };
            let checks_are = match checks {
                Some(c) => JsonView::Text(checks_name(c)),
                None => JsonView::Null,
            };
            let state_stays = previous matches Some(p) && p.state == state;
            let checks_stay = match previous {
                Some(p) => p.checks == checks,
                None => checks is None,
            };
            let state_event = JsonView::Object(
                seq![
                    ("type"@, JsonView::Text("pr_state_changed"@)),
                    ("from"@, was),
                    ("to"@, JsonView::Text(pr_state_name(state))),
                ],
            );
            let checks_event = JsonView::Object(
                seq![
                    ("type"@, JsonView::Text("checks_state_changed"@)),
                    ("from"@, checks_were),
                    ("to"@, checks_are),
                ],
            );
            &&& state_stays && checks_stay ==> events@.len() == 0
            &&& !state_stays && checks_stay ==> events@.len() == 1 && events@[0]@ == state_event
            &&& state_stays && !checks_stay ==> events@.len() == 1 && events@[0]@ == checks_event
            &&& !state_stays && !checks_stay ==> events@.len() == 2 && events@[0]@ == state_event
                && events@[1]@ == checks_event
        }),
{
    let was = match previous {
        Some(p) => JsonView::Text(pr_state_name(p.state)),
        None => JsonView::Null,
    };
    let checks_were = match previous {
        Some(PrStatus { checks: Some(c), .. }) => JsonView::Text(checks_name(c)),
        _ => JsonView::Null,
    };
    let checks_are = match checks {
        Some(c) => JsonView::Text(checks_name(c)),
        None => JsonView::Null,
    };
    assert(change_event(
        "pr_state_changed"@,
        optional_state_name(state_before(previous)),
        Some(pr_state_name(state)),
    )->Object_0 =~= seq![
        ("type"@, JsonView::Text("pr_state_changed"@)),
        ("from"@, was),
        ("to"@, JsonView::Text(pr_state_name(state))),
    ]);
    assert(change_event(
        "checks_state_changed"@,
        optional_checks_name(checks_before(previous)),
        optional_checks_name(checks),
    )->Object_0 =~= seq![
        ("type"@, JsonView::Text("checks_state_changed"@)),
        ("from"@, checks_were),
        ("to"@, checks_are),
    ]);
    let views = json_views(events@);
    assert(views.len() == events@.len());
    if events@.len() > 0 {
        assert(views[0] == events@[0]@);
    }
    if events@.len() > 1 {
        assert(views[1] == events@[1]@);
    }
}

/// A pull request that was observed is written down as it was observed, with
/// the events of what changed, and its earlier failures no longer count; those
/// of other sessions still do.
pub proof fn observations_are_written_down(
    poller: &mut PrPoller,
    id: &str,
    previous: Option<PrStatus>,
    state: PrState,
    checks: Option<ChecksState>,
    now: Timestamp,
    r: Commit,
    events: Vec<Json>,
    other: &str,
    before: u32,
    after: u32,
)
    requires
        call_ensures(PrPoller::observed, (poller, id, previous, state, checks, now), r),
        call_ensures(transitions, (previous, state, checks), events),
        call_ensures(PrPoller::failure_count, (old(poller), other), before),
        call_ensures(PrPoller::failure_count, (final(poller), other), after),
    ensures
        r.status.state == state,
        r.status.checks == checks,
        r.status.last_synced_at == now,
        r.events@.len() == events@.len(),
        forall|i: int| 0 <= i < events@.len() ==> (#[trigger] r.events@[i])@ == events@[i]@,
        after == if other@ == id@ {
            0
        } else {
            before
        },
        final(poller).pause() == old(poller).pause(),
{
    assert(json_views(r.events@).len() == r.events@.len());
    assert(json_views(events@).len() == events@.len());
    assert forall|i: int| 0 <= i < events@.len() implies (#[trigger] r.events@[i])@
        == events@[i]@ by {
        assert(json_views(r.events@)[i] == json_views(events@)[i]);
    }
}

/// A pull request that cannot be seen three times in a row is marked the third
/// time, and no earlier: a 403 or 404 that is no rate limit.
pub proof fn the_third_failure_in_a_row_marks(
    first: &mut PrPoller,
    second: &mut PrPoller,
    third: &mut PrPoller,
    id: &str,
    previous: Option<PrStatus>,
    errors: (GithubError, GithubError, GithubError),
    now: Timestamp,
    before: u32,
    steps: (SyncStep, SyncStep, SyncStep),
    events: Vec<Json>,
)
    requires
        call_ensures(PrPoller::failure_count, (old(first), id), before),
        before == 0,
        call_ensures(PrPoller::failed, (first, id, previous, &errors.0, now), steps.0),
        *old(second) == *final(first),
        call_ensures(PrPoller::failed, (second, id, previous, &errors.1, now), steps.1),
        *old(third) == *final(second),
        call_ensures(PrPoller::failed, (third, id, previous, &errors.2, now), steps.2),
        hides(errors.0, 403) || hides(errors.0, 404),
        hides(errors.1, 403) || hides(errors.1, 404),
        hides(errors.2, 403) || hides(errors.2, 404),
        call_ensures(
            transitions,
            (
                previous,
                PrState::SyncError,
                match previous {
                    Some(p) => p.checks,
                    None => None,
                },
            ),
            events,
        ),
    ensures
        steps.0 is Skip,
        steps.1 is Skip,
        steps.2 matches SyncStep::Write(commit) && commit.status.state == PrState::SyncError
            && commit.status.last_synced_at == now && commit.status.checks == (match previous {
            Some(p) => p.checks,
            None => None,
        }) && json_views(commit.events@) == json_views(events@),
{
}

/// GitHub answered with the status, which is not because of a rate limit.
pub open spec fn hides(error: GithubError, status: u16) -> bool {
    error matches GithubError::Status { status: s, rate_limited, .. } && s == status
        && !rate_limited
}

/// Any other failure starts the count anew and marks nothing: a rate limit
/// ends the tick until its reset, and whatever else went wrong is tried again.
pub proof fn other_failures_do_not_mark(
    poller: &mut PrPoller,
    id: &str,
    previous: Option<PrStatus>,
    error: &GithubError,
    now: Timestamp,
    r: SyncStep,
    after: u32,
)
    requires
        call_ensures(PrPoller::failed, (poller, id, previous, error, now), r),
        call_ensures(PrPoller::failure_count, (final(poller), id), after),
        !hides(*error, 403),
        !hides(*error, 404),
    ensures
        after == 0,
        match *error {
            GithubError::Status { rate_limited, reset_at, .. } => if rate_limited {
                r == SyncStep::RateLimited(reset_at)
            } else {
                r is Skip
            },
            _ => r is Skip,
        },
{
}

/// A session counts on from its own failures alone: each time its pull request
/// cannot be seen it has failed once more, and no other session has.
pub proof fn failures_are_counted_by_session(
    poller: &mut PrPoller,
    id: &str,
    previous: Option<PrStatus>,
    error: &GithubError,
    now: Timestamp,
    r: SyncStep,
    other: &str,
    before: u32,
    after: u32,
)
    requires
        call_ensures(PrPoller::failed, (poller, id, previous, error, now), r),
        call_ensures(PrPoller::failure_count, (old(poller), other), before),
        call_ensures(PrPoller::failure_count, (final(poller), other), after),
        hides(*error, 403) || hides(*error, 404),
        before < u32::MAX,
    ensures
        after == if other@ == id@ {
            before + 1
        } else {
            before as int
        },
        final(poller).pause() == old(poller).pause(),
{
}

/// A poller starts without failures and ticks as it is told to; after a tick
/// it waits its interval, or longer when GitHub asks for longer, and never more
/// than the longer of the two.
pub proof fn polls_wait_long_enough(
    interval: Span,
    fresh: PrPoller,
    id: &str,
    failures: u32,
    report: &TickReport,
    wait: Span,
)
    requires
        call_ensures(PrPoller::new, (interval,), fresh),
        call_ensures(PrPoller::failure_count, (&fresh, id), failures),
        call_ensures(PrPoller::wait_after, (&fresh, report), wait),
    ensures
        failures == 0,
        wait.nanos >= interval.nanos,
        report.backoff matches Some(backoff) ==> wait.nanos >= backoff.nanos,
        wait.nanos == interval.nanos || (report.backoff matches Some(backoff) && wait.nanos
            == backoff.nanos),
{
}

/// A tick counts each session where it belongs and goes on until a rate limit,
/// which it waits out: until the reset, or a minute when that is past or not
/// known.
pub proof fn ticks_count_their_sessions(
    report: &mut TickReport,
    result: SyncResult,
    now: &Timestamp,
    goes_on: bool,
)
    requires
        old(report).synced + old(report).skipped < usize::MAX,
        call_ensures(TickReport::count, (report, result, now), goes_on),
    ensures
        final(report).synced == old(report).synced + (if result is Synced {
            1int
        } else {
            0
        }),
        final(report).skipped == old(report).skipped + (if result is Synced {
            0int
        } else {
            1
        }),
        goes_on <==> !(result is RateLimited),
        goes_on ==> final(report).backoff == old(report).backoff,
        result matches SyncResult::RateLimited(reset_at) ==> {
            &&& final(report).backoff matches Some(backoff)
            &&& match reset_at {
                Some(reset) => {
                    let ahead = (reset.secs - now.secs) * 1_000_000_000 + reset.nanos - now.nanos;
                    backoff.nanos == if ahead >= 0 {
                        ahead
                    } else {
                        60_000_000_000
                    }
                },
                None => backoff.nanos == 60_000_000_000,
            }
        },
{
    if let SyncResult::RateLimited(Some(reset)) = result {
        assert(reset.instant() - now.instant() == (reset.secs - now.secs) * 1_000_000_000
            + reset.nanos - now.nanos);
        assert(-9_300_000_000_000_000_000_000_000_000 <= reset.instant()
            <= 9_300_000_000_000_000_000_000_000_000);
        assert(-9_300_000_000_000_000_000_000_000_000 <= now.instant()
            <= 9_300_000_000_000_000_000_000_000_000);
    }
}

/// The sync of a session observes the pull request that its outcome names. An
/// outcome without a readable one is marked at once and keeps its checks; with
/// no way to ask GitHub, or the session locked elsewhere, nothing happens.
pub proof fn syncs_observe_the_named_pull_request(
    configured: bool,
    locked: Option<&Session>,
    now: Timestamp,
    plan: SyncPlan,
    url: &str,
    parsed: Option<PullRef>,
)
    requires
        call_ensures(begin_sync, (configured, locked, now), plan),
        call_ensures(PullRef::parse, (url,), parsed),
    ensures
        !configured || locked is None ==> plan is Skip,
        configured ==> (locked matches Some(session) ==> {
            let named = session.outcome matches Some(SessionOutcome { pr_url: Some(u), .. }) && u@
                == url@;
            let marked = plan matches SyncPlan::Write(commit) && commit.status.state
                == PrState::SyncError && commit.status.last_synced_at == now
                && commit.status.checks == (match session.pr_status {
                Some(p) => p.checks,
                None => None,
            });
            &&& named ==> match parsed {
                Some(pr) => plan matches SyncPlan::Observe(seen) && seen.owner@ == pr.owner@
                    && seen.repo@ == pr.repo@ && seen.number == pr.number,
                None => marked,
            }
            &&& session.outcome is None ==> marked
            &&& (session.outcome matches Some(o) && o.pr_url is None) ==> marked
        }),
{
}

/// A snapshot counts as synced only when it was written.
pub proof fn only_written_snapshots_are_synced(written: bool, r: SyncResult)
    requires
        call_ensures(after_write, (written,), r),
    ensures
        written ==> r is Synced,
        !written ==> r is Skipped,
{
}

/// A snapshot holds what was observed; one that only marks a state keeps the
/// checks that were known. Both tell the changes as any observation does.
pub proof fn snapshots_tell_their_changes(
    previous: Option<PrStatus>,
    state: PrState,
    checks: Option<ChecksState>,
    now: Timestamp,
    seen: Commit,
    marked: Commit,
    seen_events: Vec<Json>,
    marked_events: Vec<Json>,
)
    requires
        call_ensures(observed_commit, (previous, state, checks, now), seen),
        call_ensures(write_state, (previous, state, now), marked),
        call_ensures(transitions, (previous, state, checks), seen_events),
        call_ensures(
            transitions,
            (
                previous,
                state,
                match previous {
                    Some(p) => p.checks,
                    None => None,
                },
            ),
            marked_events,
        ),
    ensures
        seen.status.state == state && seen.status.checks == checks && seen.status.last_synced_at
            == now,
        marked.status.state == state && marked.status.last_synced_at == now,
        marked.status.checks == (match previous {
            Some(p) => p.checks,
            None => None,
        }),
        json_views(seen.events@) == json_views(seen_events@),
        json_views(marked.events@) == json_views(marked_events@),
{
}

/// A session's pull request is the one its outcome's address names.
pub proof fn outcomes_name_their_pull_request(
    outcome: &Option<SessionOutcome>,
    r: Option<PullRef>,
    url: &str,
    parsed: Option<PullRef>,
)
    requires
        call_ensures(pr_ref, (outcome,), r),
        call_ensures(PullRef::parse, (url,), parsed),
    ensures
        *outcome is None ==> r is None,
        *outcome matches Some(o) ==> (o.pr_url is None ==> r is None),
        (*outcome matches Some(SessionOutcome { pr_url: Some(u), .. }) && u@ == url@) ==> match (
            r,
            parsed,
        ) {
            (Some(a), Some(b)) => a.owner@ == b.owner@ && a.repo@ == b.repo@ && a.number
                == b.number,
            (None, None) => true,
            _ => false,
        },
{
}

/// A tick looks at two hundred sessions at most.
pub proof fn ticks_are_bounded()
    ensures
        WORK_LIST_LIMIT == 200,
{
}

} // verus!
