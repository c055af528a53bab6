use vise::follow_up::{
    assemble_context, compose_input, group_threads, login, quote, CheckRun, FollowUpContext,
    GitHubUser, GitRef, PullRequest, Review, ReviewComment,
};

fn user(login: &str) -> Option<GitHubUser> {
    Some(GitHubUser {
        login: login.into(),
    })
}

fn comment(
    id: u64,
    reply_to: Option<u64>,
    path: &str,
    line: Option<u64>,
    body: &str,
) -> ReviewComment {
    ReviewComment {
        id,
        in_reply_to_id: reply_to,
        user: user("ana"),
        path: path.into(),
        line,
        original_line: Some(10),
        body: body.into(),
        diff_hunk: Some("@@ -1 +1 @@\n-old\n+new".into()),
        html_url: None,
        created_at: None,
    }
}

fn pr() -> PullRequest {
    PullRequest {
        number: 7,
        state: "open".into(),
        merged: false,
        html_url: "https://github.com/acme/widgets/pull/7".into(),
        title: "Add widgets".into(),
        head: GitRef {
            name: "vise/widgets".into(),
            sha: "abc".into(),
        },
        base: GitRef {
            name: "main".into(),
            sha: "def".into(),
        },
        user: user("vise[bot]"),
    }
}

fn review(state: &str, body: Option<&str>) -> Review {
    Review {
        id: 1,
        user: user("bo"),
        state: state.into(),
        body: body.map(str::to_string),
        commit_id: None,
        submitted_at: None,
        html_url: None,
    }
}

fn check(name: &str, status: &str, conclusion: Option<&str>) -> CheckRun {
    CheckRun {
        name: name.into(),
        status: status.into(),
        conclusion: conclusion.map(str::to_string),
        details_url: None,
        html_url: None,
    }
}

#[test]
fn groups_replies_under_their_root() {
    let threads = group_threads(vec![
        comment(1, None, "a.rs", Some(3), "root a"),
        comment(2, Some(1), "a.rs", Some(3), "reply a"),
        comment(3, None, "b.rs", None, "root b"),
        comment(4, Some(99), "c.rs", Some(1), "orphan"),
    ]);
    assert_eq!(threads.len(), 3);
    assert_eq!(threads[0].replies.len(), 1);
    assert_eq!(threads[0].replies[0].body, "reply a");
    assert_eq!(threads[1].root.body, "root b");
    assert_eq!(threads[2].root.body, "orphan");
}

#[test]
fn late_roots_and_orphans_find_their_replies() {
    let threads = group_threads(vec![
        comment(2, Some(1), "a", None, "early reply"),
        comment(1, None, "a", None, "root"),
        comment(8, Some(7), "a", None, "orphan"),
        comment(9, Some(8), "a", None, "reply to the orphan"),
    ]);
    assert_eq!(threads.len(), 2);
    assert_eq!(threads[0].root.id, 1);
    assert_eq!(threads[0].replies[0].id, 2);
    assert_eq!(threads[1].root.id, 8);
    assert_eq!(threads[1].replies[0].id, 9);
    assert!(group_threads(vec![]).is_empty());
}

#[test]
fn composes_threads_checks_and_instructions() {
    let context = FollowUpContext {
        pr: pr(),
        reviews: vec![review("CHANGES_REQUESTED", Some("Please add tests"))],
        threads: group_threads(vec![
            comment(1, None, "src/lib.rs", Some(42), "rename this"),
            comment(2, Some(1), "src/lib.rs", Some(42), "agreed"),
            comment(3, None, "src/old.rs", None, "outdated remark"),
        ]),
        failing_checks: vec![CheckRun {
            name: "clippy".into(),
            status: "completed".into(),
            conclusion: Some("failure".into()),
            details_url: Some("https://ci/1".into()),
            html_url: None,
        }],
    };

    let input = compose_input(&context, Some("  Keep the public API stable.  "));

    assert!(input.contains("https://github.com/acme/widgets/pull/7"));
    assert!(input.contains("`vise/widgets`"));
    assert!(input.contains("Do not open a new pull request"));
    assert!(input.contains("## Instructions from the requester\n\nKeep the public API stable.\n"));
    assert!(input.contains("### @bo (changes requested)\n\n> Please add tests"));
    assert!(input.contains("### `src/lib.rs` line 42 — @ana"));
    assert!(input.contains("```diff\n@@ -1 +1 @@\n-old\n+new\n```"));
    assert!(input.contains("> rename this\n\n↳ @ana replied:\n> agreed"));
    assert!(input.contains("`src/old.rs` (outdated; originally line 10)"));
    assert!(input.contains("- clippy (failure) — https://ci/1"));
    assert!(!input.contains("No open review comments"));
}

#[test]
fn instructions_come_after_the_feedback() {
    let context = FollowUpContext {
        pr: pr(),
        reviews: vec![review("COMMENTED", Some("nice"))],
        threads: vec![],
        failing_checks: vec![check("lint", "completed", Some("failure"))],
    };
    let without = compose_input(&context, None);
    let with = compose_input(&context, Some(" Be quick. "));
    let added = "\n## Instructions from the requester\n\nBe quick.\n";
    assert_eq!(with, format!("{without}{added}"));

    let empty = FollowUpContext {
        pr: pr(),
        reviews: vec![],
        threads: vec![],
        failing_checks: vec![],
    };
    let input = compose_input(&empty, Some("Be quick."));
    assert_eq!(input, format!("{}{added}", compose_input(&empty, None)));
}

#[test]
fn composes_empty_context_without_instructions() {
    let context = FollowUpContext {
        pr: pr(),
        reviews: vec![],
        threads: vec![],
        failing_checks: vec![],
    };
    let input = compose_input(&context, None);
    assert!(input.contains("No open review comments or failing checks"));
    assert!(!input.contains("## Instructions"));
    assert!(!input.contains("## Review"));
    assert!(!input.contains("## Failing"));
}

#[test]
fn the_whole_prompt() {
    let mut lonely = comment(1, None, "a.rs", None, "why?\nreally");
    lonely.user = None;
    lonely.original_line = None;
    lonely.diff_hunk = Some("  \n".into());
    let context = FollowUpContext {
        pr: pr(),
        reviews: vec![review("APPROVED", None)],
        threads: group_threads(vec![lonely]),
        failing_checks: vec![check("lint", "completed", None)],
    };
    assert_eq!(
        compose_input(&context, Some("   ")),
        "Address the review feedback on pull request https://github.com/acme/widgets/pull/7 \
         (\"Add widgets\").\nThe PR's branch is `vise/widgets`, which is the branch you are \
         checked out on. Push follow-up commits to that branch so the existing pull request \
         updates. Do not open a new pull request and do not force-push.\n\
         \n## Review summaries\n\n### @bo (approved)\n\n\n\n\
         \n## Review comment threads\n\n### `a.rs` — @unknown\n\n> why?\n> really\n\n\
         \n## Failing checks\n\n- lint (failed)\n"
    );
}

#[test]
fn only_feedback_that_matters_is_composed() {
    let context = assemble_context(
        pr(),
        vec![
            review("COMMENTED", Some("  ")),
            review("COMMENTED", None),
            review("COMMENTED", Some("x")),
        ],
        vec![comment(1, None, "a", None, "b")],
        vec![
            check("ok", "completed", Some("success")),
            check("bad", "completed", Some("timed_out")),
            check("running", "in_progress", Some("failure")),
            check("none", "completed", None),
            check("worse", "completed", Some("startup_failure")),
        ],
    );
    assert_eq!(context.pr.number, 7);
    assert_eq!(context.reviews.len(), 1);
    assert_eq!(context.threads.len(), 1);
    let names: Vec<&str> = context.failing_checks.iter().map(|c| c.name.as_str()).collect();
    assert_eq!(names, vec!["bad", "worse"]);
}

#[test]
fn quoting_and_logins() {
    assert_eq!(quote("a\r\nb\n"), "> a\n> b");
    assert_eq!(quote(""), "");
    assert_eq!(login(None), "unknown");
    assert_eq!(login(user("ana").as_ref()), "ana");
}
