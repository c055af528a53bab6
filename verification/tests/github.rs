use vise::follow_up::{GitHubUser, GitRef};
use vise::github::{
    check_runs_path, check_status, comments_path, not_installed, observe, pull_path, pull_snapshot,
    review_comments, review_summaries, reviews, reviews_path, status_error, token_request,
    CheckRunObservation, GitHubApi, GithubAuth, GithubError, InstallationToken, PullRef, RateHeaders,
    RawPull, RawReview, RawReviewComment, ReadTokens,
};
use vise::json::parse_json;
use vise::model::{ChecksState, PrState, PrStatus, SessionOutcome};
use vise::pr_tracking::{
    after_write, begin_sync, observed_commit, pr_ref, transitions, write_state, PrPoller, SyncPlan,
    SyncResult, SyncStep, TickReport, SYNC_ERROR_THRESHOLD,
};
use vise::time::{Span, Timestamp, FIRST_SECS, LAST_SECS};

fn at(secs: i64) -> Timestamp {
    Timestamp { secs, nanos: 0 }
}

fn user(login: &str) -> Option<GitHubUser> {
    Some(GitHubUser {
        login: login.into(),
    })
}

fn pull() -> PullRef {
    PullRef::parse("https://github.com/acme/widgets/pull/17").unwrap()
}

fn headers(remaining: Option<&str>, retry_after: bool, reset: Option<&str>) -> RateHeaders {
    RateHeaders {
        remaining: remaining.map(str::to_string),
        retry_after,
        reset: reset.map(str::to_string),
    }
}

#[test]
fn parses_pull_urls() {
    assert_eq!(
        PullRef::parse("https://github.com/acme/widgets/pull/17"),
        Some(PullRef {
            owner: "acme".into(),
            repo: "widgets".into(),
            number: 17
        })
    );
    assert_eq!(
        PullRef::parse("https://github.com/acme/widgets/pull/17/"),
        PullRef::parse("https://github.com/acme/widgets/pull/17")
    );
    for bad in [
        "https://github.com/acme/widgets",
        "https://github.com/acme/widgets/issues/17",
        "https://github.com/acme/widgets/pull/x",
        "https://github.com/acme/widgets/pull/17/files",
        "https://gitlab.com/acme/widgets/pull/17",
        "",
    ] {
        assert_eq!(PullRef::parse(bad), None, "{bad:?}");
    }
}

#[test]
fn pull_urls_round_trip() {
    let pr = PullRef {
        owner: "a".into(),
        repo: "b.c".into(),
        number: u64::MAX,
    };
    let url = format!("https://github.com/{}/pull/{}", pr.full_repo(), pr.number);
    assert_eq!(PullRef::parse(&url).as_ref(), Some(&pr));
    assert_eq!(PullRef::parse(&format!("{url}///")), Some(pr));
    assert!(PullRef::parse("http://github.com/a/b/pull/+7").is_some());
    for bad in [
        "https://github.com//b/pull/1",
        "https://github.com/a//pull/1",
        "https://github.com/a/b/pull/18446744073709551616",
        "https://github.com/a/b/pull/-1",
        "https://github.com/a/b/pull//1",
    ] {
        assert_eq!(PullRef::parse(bad), None, "{bad:?}");
    }
}

#[test]
fn pat_reads_send_the_pat_as_bearer_token() {
    let api = GitHubApi::new("https://api.test".into(), GithubAuth::Pat("github_pat_test".into()));
    let token = api.auth().token_for("acme/widgets", &ReadTokens::new(), &at(0));
    assert_eq!(token.as_deref(), Some("github_pat_test"));
    assert_eq!(api.api_base(), "https://api.test");
    assert_eq!(
        api.url(&pull_path(&pull())),
        "https://api.test/repos/acme/widgets/pulls/17"
    );
}

#[test]
fn addresses_of_reads() {
    let pr = pull();
    assert_eq!(reviews_path(&pr), "/repos/acme/widgets/pulls/17/reviews?per_page=100");
    assert_eq!(comments_path(&pr), "/repos/acme/widgets/pulls/17/comments?per_page=100");
    assert_eq!(
        check_runs_path(&pr, "abc"),
        "/repos/acme/widgets/commits/abc/check-runs?per_page=100"
    );
    assert_eq!(
        token_request("acme/widgets").unwrap(),
        parse_json(r#"{"repositories":["widgets"]}"#).unwrap()
    );
    assert_eq!(
        token_request("a/b/c").unwrap(),
        parse_json(r#"{"repositories":["b/c"]}"#).unwrap()
    );
    assert_eq!(token_request("widgets").unwrap_err(), "bad repo");
    assert_eq!(not_installed("a/b", "404"), "app not installed on a/b? 404");
}

#[test]
fn app_reads_reuse_the_installation_token_until_it_expires() {
    let mut kept = ReadTokens::new();
    assert_eq!(kept.reusable("acme/widgets", &at(0)), None);
    kept.keep(
        "acme/widgets",
        InstallationToken {
            token: "ghs_testtoken".into(),
            expires_at: at(3600),
        },
    );
    assert_eq!(kept.reusable("acme/widgets", &at(0)), Some("ghs_testtoken"));
    assert_eq!(kept.reusable("acme/widgets", &at(3299)), Some("ghs_testtoken"));
    assert_eq!(kept.reusable("acme/widgets", &at(3300)), None);
    assert_eq!(kept.reusable("acme/other", &at(0)), None);
}

#[test]
fn observes_pull_reviews_and_checks() {
    let snapshot = pull_snapshot(RawPull {
        state: "open".into(),
        merged: false,
        head: GitRef {
            name: "feature".into(),
            sha: "abc".into(),
        },
        html_url: "https://github.com/acme/widgets/pull/17".into(),
    });
    let read = |login: Option<&str>, submitted_at: Option<Timestamp>| RawReview {
        user: login.and_then(user),
        state: "APPROVED".into(),
        body: None,
        submitted_at,
        commit_id: Some("abc".into()),
    };
    let observed = reviews(vec![
        (read(Some("alice"), Some(at(1))), Some("approved")),
        (read(Some("bot"), None), Some("approved")),
        (read(None, Some(at(1))), Some("approved")),
        (read(Some("carol"), Some(at(1))), None),
    ]);
    let observation = observe(
        &snapshot,
        observed,
        vec![CheckRunObservation {
            name: "test".into(),
            status: "completed".into(),
            conclusion: Some("success".into()),
        }],
    );

    assert_eq!(snapshot.head_ref, "feature");
    assert!(!snapshot.closed);
    assert_eq!(observation.head_sha, "abc");
    assert!(!observation.merged && !observation.closed);
    assert_eq!(observation.reviews.len(), 1, "pending review is dropped");
    assert_eq!(observation.reviews[0].reviewer, "alice");
    assert_eq!(observation.check_runs[0].name, "test");
}

#[test]
fn anything_but_open_is_closed() {
    let snapshot = pull_snapshot(RawPull {
        state: "closed".into(),
        merged: true,
        head: GitRef {
            name: "h".into(),
            sha: "s".into(),
        },
        html_url: "u".into(),
    });
    assert!(snapshot.closed && snapshot.merged);
}

#[test]
fn summaries_need_a_body() {
    let read = |login: Option<&str>, body: Option<&str>| RawReview {
        user: login.and_then(user),
        state: "CHANGES_REQUESTED".into(),
        body: body.map(str::to_string),
        submitted_at: None,
        commit_id: None,
    };
    let summaries = review_summaries(vec![
        read(Some("ana"), Some("  \n")),
        read(Some("bo"), Some(" fix it \n")),
        read(Some("cy"), None),
        read(None, Some("ok")),
    ]);
    assert_eq!(summaries.len(), 2);
    assert_eq!(summaries[0].reviewer, "bo");
    assert_eq!(summaries[0].state, "changes_requested");
    assert_eq!(summaries[0].body, "fix it");
    assert_eq!(summaries[1].reviewer, "");
}

#[test]
fn comments_come_oldest_first() {
    let comment = |id: u64, secs: i64, line: Option<u64>| RawReviewComment {
        id,
        in_reply_to_id: None,
        user: None,
        path: "a.rs".into(),
        line,
        original_line: Some(9),
        body: format!("at {secs}"),
        created_at: at(secs),
    };
    let sorted = review_comments(vec![
        comment(5, 20, Some(1)),
        comment(4, 10, None),
        comment(3, 20, Some(2)),
        comment(9, 5, None),
    ]);
    let order: Vec<(u64, Option<u64>)> = sorted.iter().map(|c| (c.id, c.line)).collect();
    assert_eq!(order, vec![(9, Some(9)), (4, Some(9)), (3, Some(2)), (5, Some(1))]);
    assert_eq!(sorted[1].body, "at 10");
}

#[test]
fn classifies_rate_limits_and_missing_prs() {
    let limited = status_error(403, &headers(Some("0"), false, Some("1800000000")));
    assert!(limited.rate_limit_reset().is_some());
    assert!(!limited.is_not_visible());
    assert_eq!(limited.rate_limit_reset().flatten(), Some(at(1_800_000_000)));
    assert_eq!(limited.message(), "github rate limited (http 403)");

    let missing = status_error(404, &headers(None, false, None));
    assert!(missing.is_not_visible());
    assert!(missing.rate_limit_reset().is_none());
    assert_eq!(missing.message(), "github returned http 404");
}

#[test]
fn only_a_2xx_is_no_error() {
    let none = headers(None, false, None);
    for status in [200, 204, 299] {
        assert!(check_status(status, &none).is_ok(), "{status}");
    }
    for status in [100, 199, 300, 304, 404, 500] {
        let error = check_status(status, &none).unwrap_err();
        assert!(matches!(error, GithubError::Status { status: code, rate_limited: false, reset_at: None }
            if code == status));
    }
    let limited = check_status(403, &headers(Some(" 0 "), false, Some("220"))).unwrap_err();
    assert!(matches!(limited, GithubError::Status { status: 403, rate_limited: true, reset_at: Some(t) }
        if t == at(220)));
}

#[test]
fn rate_limits_have_several_signs() {
    assert!(status_error(429, &headers(None, false, None)).rate_limit_reset().is_some());
    assert!(status_error(403, &headers(None, true, None)).rate_limit_reset().is_some());
    assert!(status_error(403, &headers(Some(" 0 "), false, None)).rate_limit_reset().is_some());
    assert!(status_error(403, &headers(Some("1"), false, None)).is_not_visible());
    assert!(status_error(404, &headers(Some("0"), true, None)).is_not_visible());
    for unreadable in ["soon", "9223372036854775807", ""] {
        let error = status_error(429, &headers(None, false, Some(unreadable)));
        assert_eq!(error.rate_limit_reset(), Some(None), "{unreadable}");
    }
    assert_eq!(
        GithubError::Transport("reset".into()).message(),
        "github request failed: reset"
    );
    assert_eq!(
        GithubError::Auth("no key".into()).message(),
        "github credential unavailable: no key"
    );
}

#[test]
fn the_calendar_has_ends() {
    assert_eq!(Timestamp::at_secs(0), Some(at(0)));
    assert_eq!(Timestamp::at_secs(FIRST_SECS), Some(at(FIRST_SECS)));
    assert_eq!(Timestamp::at_secs(FIRST_SECS - 1), None);
    assert_eq!(Timestamp::at_secs(LAST_SECS), Some(at(LAST_SECS)));
    assert_eq!(Timestamp::at_secs(LAST_SECS + 1), None);
    let instant = Timestamp {
        secs: 1_800_000_000,
        nanos: 999_999_999,
    };
    assert_eq!(instant.to_rfc3339(), "2027-01-15T08:00:00Z");
    // The leap second at the end of 2016.
    let leap = |secs: i64| Timestamp { secs, nanos: 1_500_000_000 };
    assert!(leap(1_483_228_799).is_in_calendar());
    assert_eq!(leap(1_483_228_799).to_rfc3339(), "2016-12-31T23:59:60Z");
    assert!(!leap(1_483_228_800).is_in_calendar());
    assert!(leap(-1).is_in_calendar());
    assert_eq!(leap(-1).to_rfc3339(), "1969-12-31T23:59:60Z");
    assert!(!leap(-2).is_in_calendar());
    assert!(at(FIRST_SECS).is_in_calendar() && !at(FIRST_SECS - 1).is_in_calendar());
    assert!(at(LAST_SECS).is_in_calendar() && !at(LAST_SECS + 1).is_in_calendar());
    assert_eq!(at(5).since(&at(3)), Some(Span { nanos: 2_000_000_000 }));
    assert_eq!(at(3).since(&at(5)), None);
}

// --- tracking --------------------------------------------------------------

fn snapshot(state: PrState, checks: Option<ChecksState>) -> Option<PrStatus> {
    Some(PrStatus {
        state,
        checks,
        last_synced_at: at(1),
    })
}

fn minute() -> Span {
    Span {
        nanos: 60_000_000_000,
    }
}

#[test]
fn first_sync_writes_snapshot_and_transition_events_together() {
    let mut poller = PrPoller::new(minute());
    let commit = poller.observed(
        "ses",
        None,
        PrState::ChangesRequested,
        Some(ChecksState::Failing),
        at(7),
    );
    assert_eq!(commit.status.state, PrState::ChangesRequested);
    assert_eq!(commit.status.checks, Some(ChecksState::Failing));
    assert_eq!(commit.status.last_synced_at, at(7));
    assert_eq!(
        commit.events,
        vec![
            parse_json(r#"{"type":"pr_state_changed","from":null,"to":"changes_requested"}"#).unwrap(),
            parse_json(r#"{"type":"checks_state_changed","from":null,"to":"failing"}"#).unwrap(),
        ]
    );
}

#[test]
fn unchanged_observation_touches_last_synced_at_only() {
    let first = observed_commit(None, PrState::Approved, Some(ChecksState::Passing), at(1));
    assert_eq!(first.events.len(), 2, "initial state + checks");
    let second = observed_commit(
        Some(first.status),
        PrState::Approved,
        Some(ChecksState::Passing),
        at(2),
    );
    assert_eq!(second.status.state, first.status.state);
    assert_eq!(second.status.checks, first.status.checks);
    assert_eq!(second.status.last_synced_at, at(2));
    assert!(second.events.is_empty(), "no event on a quiet tick");
}

#[test]
fn only_the_changed_dimension_emits_an_event() {
    let events = transitions(
        snapshot(PrState::ReviewPending, Some(ChecksState::Pending)),
        PrState::ReviewPending,
        Some(ChecksState::Passing),
    );
    assert_eq!(
        events,
        vec![
            parse_json(r#"{"type":"checks_state_changed","from":"pending","to":"passing"}"#).unwrap()
        ]
    );
    let gone = transitions(
        snapshot(PrState::ReviewPending, Some(ChecksState::Pending)),
        PrState::Merged,
        None,
    );
    assert_eq!(
        gone,
        vec![
            parse_json(r#"{"type":"pr_state_changed","from":"review_pending","to":"merged"}"#).unwrap(),
            parse_json(r#"{"type":"checks_state_changed","from":"pending","to":null}"#).unwrap(),
        ]
    );
}

#[test]
fn persistent_not_found_becomes_sync_error_and_recovers() {
    let mut poller = PrPoller::new(minute());
    let missing = status_error(404, &headers(None, false, None));
    for attempt in 1..SYNC_ERROR_THRESHOLD {
        let step = poller.failed("ses", None, &missing, at(0));
        assert!(matches!(step, SyncStep::Skip), "attempt {attempt} stays quiet");
    }
    let commit = match poller.failed("ses", None, &missing, at(0)) {
        SyncStep::Write(commit) => commit,
        other => panic!("{other:?}"),
    };
    assert_eq!(commit.status.state, PrState::SyncError);
    assert_eq!(
        commit.events,
        vec![parse_json(r#"{"type":"pr_state_changed","from":null,"to":"sync_error"}"#).unwrap()]
    );

    // The next successful fetch clears it.
    assert!(!PrState::SyncError.is_terminal());
    let commit = poller.observed(
        "ses",
        Some(commit.status),
        PrState::Approved,
        Some(ChecksState::Passing),
        at(1),
    );
    assert_eq!(commit.status.state, PrState::Approved);
    assert_eq!(
        commit.events.last(),
        parse_json(r#"{"type":"checks_state_changed","from":null,"to":"passing"}"#).as_ref()
    );
    assert_eq!(poller.failure_count("ses"), 0);
}

#[test]
fn transient_failures_skip_and_retry() {
    let mut poller = PrPoller::new(minute());
    let broken = status_error(500, &headers(None, false, None));
    for _ in 0..10 {
        assert!(matches!(poller.failed("ses", None, &broken, at(0)), SyncStep::Skip));
    }
    assert_eq!(poller.failure_count("ses"), 0);
}

#[test]
fn only_consecutive_misses_mark_a_session() {
    let mut poller = PrPoller::new(minute());
    let missing = status_error(404, &headers(None, false, None));
    let broken = status_error(500, &headers(None, false, None));
    assert_eq!(SYNC_ERROR_THRESHOLD, 3);
    for error in [&missing, &broken, &missing, &missing] {
        assert!(matches!(poller.failed("ses", None, error, at(0)), SyncStep::Skip));
    }
    assert_eq!(poller.failure_count("ses"), 2);
    assert!(matches!(poller.failed("ses", None, &missing, at(0)), SyncStep::Write(_)));
}

#[test]
fn failures_are_counted_per_session() {
    let mut poller = PrPoller::new(minute());
    let missing = status_error(403, &headers(None, false, None));
    poller.failed("a", None, &missing, at(0));
    poller.failed("a", None, &missing, at(0));
    poller.failed("b", None, &missing, at(0));
    assert_eq!((poller.failure_count("a"), poller.failure_count("b")), (2, 1));
    poller.observed("a", None, PrState::Approved, None, at(0));
    assert_eq!((poller.failure_count("a"), poller.failure_count("b")), (0, 1));
}

#[test]
fn rate_limit_backs_off_the_whole_tick() {
    let mut poller = PrPoller::new(minute());
    let limited = status_error(403, &headers(Some("0"), false, Some("220")));
    let result = match poller.failed("ses", None, &limited, at(100)) {
        SyncStep::RateLimited(reset) => SyncResult::RateLimited(reset),
        other => panic!("{other:?}"),
    };
    let mut report = TickReport::default();
    assert!(report.count(SyncResult::Synced, &at(100)));
    assert!(report.count(SyncResult::Skipped, &at(100)));
    assert!(!report.count(result, &at(100)), "the rest of the list is left for later");
    assert_eq!((report.synced, report.skipped), (1, 2));
    let backoff = Span {
        nanos: 120_000_000_000,
    };
    assert_eq!(report.backoff, Some(backoff));
    assert_eq!(poller.wait_after(&report), backoff);
}

#[test]
fn a_limit_without_a_future_reset_lasts_a_minute() {
    for reset in [None, Some(at(99))] {
        let mut report = TickReport::default();
        report.count(SyncResult::RateLimited(reset), &at(100));
        assert_eq!(report.backoff, Some(minute()));
    }
    let hour = Span {
        nanos: 3_600_000_000_000,
    };
    let mut report = TickReport::default();
    assert_eq!(PrPoller::new(hour).wait_after(&report), hour);
    report.count(SyncResult::RateLimited(None), &at(0));
    assert_eq!(PrPoller::new(hour).wait_after(&report), hour);
}

#[test]
fn a_locked_session_is_skipped_by_a_second_poller() {
    assert!(matches!(begin_sync(true, None, at(0)), SyncPlan::Skip));
    assert!(matches!(begin_sync(false, None, at(0)), SyncPlan::Skip));
    assert_eq!(after_write(true), SyncResult::Synced);
    assert_eq!(after_write(false), SyncResult::Skipped);
}

#[test]
fn an_unreadable_outcome_is_marked_with_its_checks_kept() {
    let outcome = |url: Option<&str>| {
        Some(SessionOutcome {
            kind: "pr_opened".into(),
            pr_url: url.map(str::to_string),
            branch: None,
        })
    };
    assert_eq!(pr_ref(&None), None);
    assert_eq!(pr_ref(&outcome(None)), None);
    assert_eq!(pr_ref(&outcome(Some("https://example.com"))), None);
    assert_eq!(
        pr_ref(&outcome(Some("https://github.com/acme/widgets/pull/17"))),
        Some(pull())
    );
    let commit = write_state(
        snapshot(PrState::Approved, Some(ChecksState::Passing)),
        PrState::SyncError,
        at(9),
    );
    assert_eq!(commit.status.checks, Some(ChecksState::Passing));
    assert_eq!(
        commit.events,
        vec![parse_json(r#"{"type":"pr_state_changed","from":"approved","to":"sync_error"}"#).unwrap()]
    );
}
