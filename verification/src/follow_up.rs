//! Composition of a follow-up session's input: the pull request's current
//! review threads and failing checks, frozen into the session record when it
//! is created.

use vstd::multiset::Multiset;
use vstd::prelude::*;
use vstd::string::*;

use crate::decimal::{decimal, to_decimal};
use crate::text::{
    chars_of, concatenated, joined, lemma_concat_assoc, lemma_concat_empty, lines_of, lower_char,
    push_chars, same_text, slice_views, split_lines, to_lower_char, trim, trim_end, trimmed,
    trimmed_end,
};
use crate::time::Timestamp;

verus! {

/// A GitHub account.
#[derive(Debug, Clone)]
pub struct GitHubUser {
    pub login: String,
}

/// A branch and the commit it points at.
#[derive(Debug, Clone)]
pub struct GitRef {
    pub name: String,
    pub sha: String,
}

/// A pull request.
#[derive(Debug, Clone)]
pub struct PullRequest {
    pub number: u64,
    pub state: String,
    pub merged: bool,
    pub html_url: String,
    pub title: String,
    pub head: GitRef,
    pub base: GitRef,
    pub user: Option<GitHubUser>,
}

/// A submitted review.
#[derive(Debug, Clone)]
pub struct Review {
    pub id: u64,
    pub user: Option<GitHubUser>,
    pub state: String,
    pub body: Option<String>,
    pub commit_id: Option<String>,
    pub submitted_at: Option<Timestamp>,
    pub html_url: Option<String>,
}

/// An inline review comment with its file and line context.
#[derive(Debug, Clone)]
pub struct ReviewComment {
    pub id: u64,
    pub in_reply_to_id: Option<u64>,
    pub user: Option<GitHubUser>,
    pub path: String,
    pub line: Option<u64>,
    pub original_line: Option<u64>,
    pub body: String,
    pub diff_hunk: Option<String>,
    pub html_url: Option<String>,
    pub created_at: Option<Timestamp>,
}

/// One check run on a commit.
#[derive(Debug, Clone)]
pub struct CheckRun {
    pub name: String,
    pub status: String,
    pub conclusion: Option<String>,
    pub details_url: Option<String>,
    pub html_url: Option<String>,
}

/// An inline comment and the replies to it.
#[derive(Debug, Clone)]
pub struct ReviewThread {
    pub root: ReviewComment,
    pub replies: Vec<ReviewComment>,
}

/// Everything the input of a follow-up session is composed from.
#[derive(Debug, Clone)]
pub struct FollowUpContext {
    pub pr: PullRequest,
    /// Top-level review submissions with a body (summaries, not inline comments).
    pub reviews: Vec<Review>,
    pub threads: Vec<ReviewThread>,
    pub failing_checks: Vec<CheckRun>,
}

/// A thread as a mathematical value.
#[verifier::ext_equal]
pub struct ThreadView {
    pub root: ReviewComment,
    pub replies: Seq<ReviewComment>,
}

impl View for ReviewThread {
    type V = ThreadView;

    open spec fn view(&self) -> ThreadView {
        ThreadView { root: self.root, replies: self.replies@ }
    }
}

/// The views of a sequence of threads.
pub open spec fn thread_views(ts: Seq<ReviewThread>) -> Seq<ThreadView> {
    Seq::new(ts.len(), |i: int| ts[i]@)
}

/// A thread that holds only its root.
pub open spec fn fresh_thread(c: ReviewComment) -> ThreadView {
    ThreadView { root: c, replies: Seq::empty() }
}

/// Position of the first thread whose root has this id, or the number of
/// threads when there is none.
pub open spec fn thread_with_root(ts: Seq<ThreadView>, id: u64) -> int
    decreases ts.len(),
{
    if ts.len() == 0 || ts[0].root.id == id {
        0
    } else {
        1 + thread_with_root(ts.skip(1), id)
    }
}

/// The threads with `c` added as the last reply of thread `i`.
pub open spec fn with_reply(ts: Seq<ThreadView>, i: int, c: ReviewComment) -> Seq<ThreadView> {
    ts.update(i, ThreadView { root: ts[i].root, replies: ts[i].replies.push(c) })
}

/// One pass over the comments in their order: a comment that replies to
/// nothing starts a thread, a reply joins the thread of its root, and a reply
/// whose root has not appeared is set aside.
pub open spec fn threads_and_orphans(cs: Seq<ReviewComment>) -> (
    Seq<ThreadView>,
    Seq<ReviewComment>,
)
    decreases cs.len(),
{
    if cs.len() == 0 {
        (Seq::empty(), Seq::empty())
    } else {
        let (ts, orphans) = threads_and_orphans(cs.drop_last());
        let c = cs.last();
        match c.in_reply_to_id {
            None => (ts.push(fresh_thread(c)), orphans),
            Some(parent) => {
                let i = thread_with_root(ts, parent);
                if 0 <= i < ts.len() {
                    (with_reply(ts, i, c), orphans)
                } else {
                    (ts, orphans.push(c))
                }
            },
        }
    }
}

/// The threads after the comments set aside have found their place: with
/// their root if it appeared after all, else as a thread of their own.
pub open spec fn with_orphans(ts: Seq<ThreadView>, orphans: Seq<ReviewComment>) -> Seq<ThreadView>
    decreases orphans.len(),
{
    if orphans.len() == 0 {
        ts
    } else {
        let before = with_orphans(ts, orphans.drop_last());
        let c = orphans.last();
        let parent = match c.in_reply_to_id {
            Some(id) => id,
            None => 0,
        };
        let i = thread_with_root(before, parent);
        if 0 <= i < before.len() {
            with_reply(before, i, c)
        } else {
            before.push(fresh_thread(c))
        }
    }
}

/// The threads that the comments `cs` form.
pub open spec fn threads_of(cs: Seq<ReviewComment>) -> Seq<ThreadView> {
    with_orphans(threads_and_orphans(cs).0, threads_and_orphans(cs).1)
}

pub proof fn lemma_thread_with_root_is(ts: Seq<ThreadView>, id: u64, i: int)
    requires
        0 <= i <= ts.len(),
        forall|j: int| 0 <= j < i ==> (#[trigger] ts[j]).root.id != id,
        i < ts.len() ==> ts[i].root.id == id,
    ensures
        thread_with_root(ts, id) == i,
    decreases i,
{
    if i > 0 {
        assert(ts[0].root.id != id);
        let t = ts.skip(1);
        assert forall|j: int| 0 <= j < i - 1 implies (#[trigger] t[j]).root.id != id by {
            assert(t[j] == ts[j + 1]);
        }
        lemma_thread_with_root_is(t, id, i - 1);
    }
}

/// Position of the first thread whose root has this id, or the number of
/// threads.
fn find_thread(threads: &Vec<ReviewThread>, id: u64) -> (r: usize)
    ensures
        r <= threads@.len(),
        r as int == thread_with_root(thread_views(threads@), id),
{
    let mut i: usize = 0;
    while i < threads.len() && threads[i].root.id != id
        invariant
            i <= threads.len(),
            forall|j: int| 0 <= j < i ==> (#[trigger] threads@[j]).root.id != id,
        decreases threads.len() - i,
    {
        i += 1;
    }
    proof {
        let ts = thread_views(threads@);
        assert forall|j: int| 0 <= j < i implies (#[trigger] ts[j]).root.id != id by {
            assert(ts[j].root.id == threads@[j].root.id);
        }
        lemma_thread_with_root_is(ts, id, i as int);
    }
    i
}

/// Adds `comment` as the last reply of thread `i`.
fn add_reply(threads: &mut Vec<ReviewThread>, i: usize, comment: ReviewComment)
    requires
        i < old(threads)@.len(),
    ensures
        thread_views(final(threads)@) == with_reply(thread_views(old(threads)@), i as int, comment),
{
    let thread = &mut threads[i];
    thread.replies.push(comment);
    assert(thread_views(threads@) =~= with_reply(thread_views(old(threads)@), i as int, comment));
}

/// Adds a thread that holds only `comment`.
fn add_thread(threads: &mut Vec<ReviewThread>, comment: ReviewComment)
    ensures
        thread_views(final(threads)@) == thread_views(old(threads)@).push(fresh_thread(comment)),
{
    threads.push(ReviewThread { root: comment, replies: Vec::new() });
    assert(thread_views(threads@) =~= thread_views(old(threads)@).push(fresh_thread(comment)));
}

/// Group inline comments into threads by `in_reply_to_id`, preserving
/// GitHub's chronological order. Replies whose root is missing (deleted)
/// become their own thread so nothing is silently dropped.
pub fn group_threads(comments: Vec<ReviewComment>) -> (threads: Vec<ReviewThread>)
    ensures
        thread_views(threads@) == threads_of(comments@),
{
    let mut threads: Vec<ReviewThread> = Vec::new();
    let mut orphans: Vec<ReviewComment> = Vec::new();
    let ghost all = comments@;

    assert(thread_views(threads@) =~= Seq::empty());
    for comment in it: comments
        invariant
            it.seq() == all,
            thread_views(threads@) == threads_and_orphans(all.take(it.index() as int)).0,
            orphans@ == threads_and_orphans(all.take(it.index() as int)).1,
    {
        proof {
            let i = it.index() as int;
            assert(all.take(i + 1).drop_last() =~= all.take(i));
            assert(all.take(i + 1).last() == comment);
        }
        match comment.in_reply_to_id {
            None => add_thread(&mut threads, comment),
            Some(parent) => {
                let i: usize = find_thread(&threads, parent);
                if i < threads.len() {
                    add_reply(&mut threads, i, comment);
                } else {
                    orphans.push(comment);
                }
            },
        }
    }
    assert(all.take(all.len() as int) =~= all);

    let ghost placed = thread_views(threads@);
    let ghost aside = orphans@;
    assert(aside.take(0) =~= Seq::empty());
    for orphan in it: orphans
        invariant
            it.seq() == aside,
            thread_views(threads@) == with_orphans(placed, aside.take(it.index() as int)),
    {
        proof {
            let i = it.index() as int;
            assert(aside.take(i + 1).drop_last() =~= aside.take(i));
            assert(aside.take(i + 1).last() == orphan);
        }
        let parent: u64 = match orphan.in_reply_to_id {
            Some(id) => id,
            None => 0,
        };
        let i: usize = find_thread(&threads, parent);
        if i < threads.len() {
            add_reply(&mut threads, i, orphan);
        } else {
            add_thread(&mut threads, orphan);
        }
    }
    assert(aside.take(aside.len() as int) =~= aside);
    threads
}

/// All the comments of a thread.
pub open spec fn members(t: ThreadView) -> Multiset<ReviewComment> {
    t.replies.to_multiset().insert(t.root)
}

/// All the comments of some threads.
pub open spec fn all_members(ts: Seq<ThreadView>) -> Multiset<ReviewComment>
    decreases ts.len(),
{
    if ts.len() == 0 {
        Multiset::empty()
    } else {
        all_members(ts.drop_last()).add(members(ts.last()))
    }
}

proof fn lemma_members_of_reply(ts: Seq<ThreadView>, i: int, c: ReviewComment)
    requires
        0 <= i < ts.len(),
    ensures
        all_members(with_reply(ts, i, c)) =~= all_members(ts).insert(c),
    decreases ts.len(),
{
    broadcast use vstd::seq_lib::group_to_multiset_ensures;

    let after = with_reply(ts, i, c);
    if i == ts.len() - 1 {
        assert(after.drop_last() =~= ts.drop_last());
    } else {
        assert(after.drop_last() =~= with_reply(ts.drop_last(), i, c));
        lemma_members_of_reply(ts.drop_last(), i, c);
    }
}

proof fn lemma_members_of_fresh(ts: Seq<ThreadView>, c: ReviewComment)
    ensures
        all_members(ts.push(fresh_thread(c))) =~= all_members(ts).insert(c),
{
    broadcast use vstd::seq_lib::group_to_multiset_ensures;

    assert(ts.push(fresh_thread(c)).drop_last() =~= ts);
}

proof fn lemma_first_pass_members(cs: Seq<ReviewComment>)
    ensures
        all_members(threads_and_orphans(cs).0).add(threads_and_orphans(cs).1.to_multiset())
            =~= cs.to_multiset(),
    decreases cs.len(),
{
    broadcast use vstd::seq_lib::group_to_multiset_ensures;

    if cs.len() > 0 {
        lemma_first_pass_members(cs.drop_last());
        let (ts, orphans) = threads_and_orphans(cs.drop_last());
        let c = cs.last();
        assert(cs =~= cs.drop_last().push(c));
        match c.in_reply_to_id {
            None => lemma_members_of_fresh(ts, c),
            Some(parent) => {
                let i = thread_with_root(ts, parent);
                if 0 <= i < ts.len() {
                    lemma_members_of_reply(ts, i, c);
                }
            },
        }
    }
}

proof fn lemma_second_pass_members(ts: Seq<ThreadView>, orphans: Seq<ReviewComment>)
    ensures
        all_members(with_orphans(ts, orphans)) =~= all_members(ts).add(orphans.to_multiset()),
    decreases orphans.len(),
{
    broadcast use vstd::seq_lib::group_to_multiset_ensures;

    if orphans.len() > 0 {
        lemma_second_pass_members(ts, orphans.drop_last());
        let before = with_orphans(ts, orphans.drop_last());
        let c = orphans.last();
        assert(orphans =~= orphans.drop_last().push(c));
        let parent = match c.in_reply_to_id {
            Some(id) => id,
            None => 0,
        };
        let i = thread_with_root(before, parent);
        if 0 <= i < before.len() {
            lemma_members_of_reply(before, i, c);
        } else {
            lemma_members_of_fresh(before, c);
        }
    }
}

/// Grouping drops no comment and repeats none: the threads hold exactly the
/// comments they were made from.
pub proof fn grouping_keeps_every_comment(cs: Seq<ReviewComment>)
    ensures
        all_members(threads_of(cs)) =~= cs.to_multiset(),
{
    lemma_first_pass_members(cs);
    lemma_second_pass_members(threads_and_orphans(cs).0, threads_and_orphans(cs).1);
}

/// Every reply of the thread answers the thread's root.
pub open spec fn replies_answer_root(t: ThreadView) -> bool {
    forall|j: int|
        0 <= j < t.replies.len() ==> (#[trigger] t.replies[j]).in_reply_to_id == Some(t.root.id)
}

proof fn lemma_thread_with_root(ts: Seq<ThreadView>, id: u64)
    ensures
        0 <= thread_with_root(ts, id) <= ts.len(),
        thread_with_root(ts, id) < ts.len() ==> ts[thread_with_root(ts, id)].root.id == id,
    decreases ts.len(),
{
    if ts.len() > 0 && ts[0].root.id != id {
        lemma_thread_with_root(ts.skip(1), id);
    }
}

proof fn lemma_first_pass_answers(cs: Seq<ReviewComment>)
    ensures
        forall|i: int|
            0 <= i < threads_and_orphans(cs).0.len() ==> replies_answer_root(
                #[trigger] threads_and_orphans(cs).0[i],
            ),
        forall|i: int|
            0 <= i < threads_and_orphans(cs).1.len() ==> (
            #[trigger] threads_and_orphans(cs).1[i]).in_reply_to_id is Some,
        threads_and_orphans(cs).0.map_values(|t: ThreadView| t.root) =~= cs.filter(
            |c: ReviewComment| c.in_reply_to_id is None,
        ),
    decreases cs.len(),
{
    if cs.len() == 0 {
        reveal(Seq::filter);
    } else {
        lemma_first_pass_answers(cs.drop_last());
        reveal(Seq::filter);
        let ts = threads_and_orphans(cs.drop_last()).0;
        match cs.last().in_reply_to_id {
            None => {},
            Some(parent) => lemma_thread_with_root(ts, parent),
        }
    }
}

proof fn lemma_second_pass_answers(ts: Seq<ThreadView>, orphans: Seq<ReviewComment>)
    requires
        forall|i: int| 0 <= i < ts.len() ==> replies_answer_root(#[trigger] ts[i]),
        forall|i: int| 0 <= i < orphans.len() ==> (#[trigger] orphans[i]).in_reply_to_id is Some,
    ensures
        forall|i: int|
            0 <= i < with_orphans(ts, orphans).len() ==> replies_answer_root(
                #[trigger] with_orphans(ts, orphans)[i],
            ),
        with_orphans(ts, orphans).len() >= ts.len(),
        forall|i: int|
            0 <= i < ts.len() ==> (#[trigger] with_orphans(ts, orphans)[i]).root == ts[i].root,
    decreases orphans.len(),
{
    if orphans.len() > 0 {
        assert forall|i: int| 0 <= i < orphans.drop_last().len() implies (
        #[trigger] orphans.drop_last()[i]).in_reply_to_id is Some by {
            assert(orphans[i].in_reply_to_id is Some);
        }
        lemma_second_pass_answers(ts, orphans.drop_last());
        let before = with_orphans(ts, orphans.drop_last());
        let c = orphans.last();
        assert(orphans[orphans.len() - 1].in_reply_to_id is Some);
        lemma_thread_with_root(before, c.in_reply_to_id->0);
    }
}

/// A reply stands in a thread only under the comment it answers, and the
/// comments that answer nothing head the first threads in their own order.
pub proof fn grouping_follows_replies(cs: Seq<ReviewComment>)
    ensures
        forall|i: int|
            0 <= i < threads_of(cs).len() ==> replies_answer_root(#[trigger] threads_of(cs)[i]),
        ({
            let roots = cs.filter(|c: ReviewComment| c.in_reply_to_id is None);
            &&& threads_of(cs).len() >= roots.len()
            &&& forall|i: int|
                0 <= i < roots.len() ==> (#[trigger] threads_of(cs)[i]).root == roots[i]
        }),
{
    lemma_first_pass_answers(cs);
    let (ts, orphans) = threads_and_orphans(cs);
    lemma_second_pass_answers(ts, orphans);
    let roots = cs.filter(|c: ReviewComment| c.in_reply_to_id is None);
    assert forall|i: int| 0 <= i < roots.len() implies (#[trigger] threads_of(cs)[i]).root
        == roots[i] by {
        assert(ts.map_values(|t: ThreadView| t.root)[i] == ts[i].root);
    }
}

/// The name under which a user is mentioned.
pub open spec fn login_of(user: Option<GitHubUser>) -> Seq<char> {
    match user {
        Some(u) => u.login@,
        None => "unknown"@,
    }
}

/// The user's login, or `unknown`.
pub fn login(user: Option<&GitHubUser>) -> (r: &str)
    ensures
        match user {
            Some(u) => r@ == login_of(Some(*u)),
            None => r@ == login_of(None),
        },
{
    match user {
        Some(u) => u.login.as_str(),
        None => "unknown",
    }
}

/// Each line of `body` behind a quotation mark.
pub open spec fn quoted(body: Seq<char>) -> Seq<char> {
    joined(lines_of(body).map_values(|line: Seq<char>| "> "@ + line), "\n"@)
}

/// Each line of `body` behind a quotation mark.
pub fn quote(body: &str) -> (r: String)
    ensures
        r@ == quoted(body@),
{
    let chars: Vec<char> = chars_of(body);
    let lines: Vec<&[char]> = split_lines(&chars);
    let ghost parts = lines_of(body@).map_values(|line: Seq<char>| "> "@ + line);
    let mut out = String::new();
    let mut i: usize = 0;
    while i < lines.len()
        invariant
            i <= lines.len(),
            slice_views(lines@) == lines_of(body@),
            parts == lines_of(body@).map_values(|line: Seq<char>| "> "@ + line),
            out@ == joined(parts.take(i as int), "\n"@),
        decreases lines.len() - i,
    {
        let ghost before = out@;
        if i > 0 {
            out.append("\n");
        }
        out.append("> ");
        push_chars(&mut out, lines[i]);
        proof {
            let upto = parts.take(i + 1);
            assert(upto.drop_last() =~= parts.take(i as int));
            assert(slice_views(lines@)[i as int] == lines@[i as int]@);
            assert(parts[i as int] == "> "@ + lines@[i as int]@);
            if i == 0 {
                assert(out@ =~= parts[0]);
            } else {
                assert(out@ =~= before + "\n"@ + parts[i as int]);
            }
        }
        i += 1;
    }
    assert(parts.take(parts.len() as int) =~= parts);
    out
}

/// `s` as an optional text: absent when it is blank, else without the white
/// space around it.
pub open spec fn stated(s: Option<Seq<char>>) -> Option<Seq<char>> {
    match s {
        Some(t) => if trimmed(t).len() > 0 {
            Some(trimmed(t))
        } else {
            None
        },
        None => None,
    }
}

/// The text of an optional string.
pub open spec fn optional_text(s: Option<String>) -> Option<Seq<char>> {
    match s {
        Some(t) => Some(t@),
        None => None,
    }
}

/// The opening of the prompt.
pub open spec fn opening(pr: PullRequest) -> Seq<char> {
    "Address the review feedback on pull request "@ + pr.html_url@ + " (\""@ + pr.title@
        + "\").\nThe PR's branch is `"@ + pr.head.name@
        + "`, which is the branch you are checked out on. Push follow-up commits to that branch so the existing pull request updates. Do not open a new pull request and do not force-push.\n"@
}

/// The requester's instructions, when there are any.
pub open spec fn instructions_section(instructions: Option<Seq<char>>) -> Seq<char> {
    match stated(instructions) {
        Some(text) => "\n## Instructions from the requester\n\n"@ + text + "\n"@,
        None => Seq::empty(),
    }
}

/// A review's state in words: lower case, with blanks for underscores.
pub open spec fn state_words(state: Seq<char>) -> Seq<char> {
    state.map_values(
        |c: char|
            if lower_char(c) == '_' {
                ' '
            } else {
                lower_char(c)
            },
    )
}

/// One review summary.
pub open spec fn review_entry(review: Review) -> Seq<char> {
    "### @"@ + login_of(review.user) + " ("@ + state_words(review.state@) + ")\n\n"@ + quoted(
        match review.body {
            Some(b) => b@,
            None => Seq::empty(),
        },
    ) + "\n\n"@
}

/// The review summaries one after another.
pub open spec fn review_entries(reviews: Seq<Review>) -> Seq<char>
    decreases reviews.len(),
{
    if reviews.len() == 0 {
        Seq::empty()
    } else {
        review_entries(reviews.drop_last()) + review_entry(reviews.last())
    }
}

/// Where in the change a comment stands.
pub open spec fn location(root: ReviewComment) -> Seq<char> {
    match (root.line, root.original_line) {
        (Some(line), _) => "`"@ + root.path@ + "` line "@ + decimal(line as nat),
        (None, Some(line)) => "`"@ + root.path@ + "` (outdated; originally line "@ + decimal(
            line as nat,
        ) + ")"@,
        (None, None) => "`"@ + root.path@ + "`"@,
    }
}

/// The diff a comment was made on, when it has one.
pub open spec fn hunk_block(hunk: Option<Seq<char>>) -> Seq<char> {
    match hunk {
        Some(h) => if trimmed(h).len() > 0 {
            "```diff\n"@ + trimmed_end(h) + "\n```\n\n"@
        } else {
            Seq::empty()
        },
        None => Seq::empty(),
    }
}

/// One reply.
pub open spec fn reply_entry(reply: ReviewComment) -> Seq<char> {
    "\n↳ @"@ + login_of(reply.user) + " replied:\n"@ + quoted(reply.body@) + "\n"@
}

/// The replies one after another.
pub open spec fn reply_entries(replies: Seq<ReviewComment>) -> Seq<char>
    decreases replies.len(),
{
    if replies.len() == 0 {
        Seq::empty()
    } else {
        reply_entries(replies.drop_last()) + reply_entry(replies.last())
    }
}

/// One thread: its place, the diff, the comment and the replies.
pub open spec fn thread_entry(thread: ThreadView) -> Seq<char> {
    "### "@ + location(thread.root) + " — @"@ + login_of(thread.root.user) + "\n\n"@ + hunk_block(
        optional_text(thread.root.diff_hunk),
    ) + quoted(thread.root.body@) + "\n"@ + reply_entries(thread.replies) + "\n"@
}

/// The threads one after another.
pub open spec fn thread_entries(threads: Seq<ThreadView>) -> Seq<char>
    decreases threads.len(),
{
    if threads.len() == 0 {
        Seq::empty()
    } else {
        thread_entries(threads.drop_last()) + thread_entry(threads.last())
    }
}

/// Where a check can be looked at: its details, else its page, else nowhere.
pub open spec fn check_link(run: CheckRun) -> Seq<char> {
    match (run.details_url, run.html_url) {
        (Some(url), _) => " — "@ + url@,
        (None, Some(url)) => " — "@ + url@,
        (None, None) => Seq::empty(),
    }
}

/// One failing check.
pub open spec fn check_entry(run: CheckRun) -> Seq<char> {
    "- "@ + run.name@ + " ("@ + match run.conclusion {
        Some(c) => c@,
        None => "failed"@,
    } + ")"@ + check_link(run) + "\n"@
}

/// The failing checks one after another.
pub open spec fn check_entries(runs: Seq<CheckRun>) -> Seq<char>
    decreases runs.len(),
{
    if runs.len() == 0 {
        Seq::empty()
    } else {
        check_entries(runs.drop_last()) + check_entry(runs.last())
    }
}

/// `entries` under `heading`; nothing at all when there is none.
pub open spec fn section(heading: Seq<char>, count: nat, entries: Seq<char>) -> Seq<char> {
    if count == 0 {
        Seq::empty()
    } else {
        heading + entries
    }
}

/// The note that stands in for the sections when all of them are empty.
pub open spec fn nothing_found(context: FollowUpContext) -> Seq<char> {
    if context.reviews@.len() == 0 && context.threads@.len() == 0 && context.failing_checks@.len()
        == 0 {
        "\nNo open review comments or failing checks were found when this session was created.\n"@
    } else {
        Seq::empty()
    }
}

/// The review feedback and the failing checks.
pub open spec fn feedback(context: FollowUpContext) -> Seq<char> {
    section(
        "\n## Review summaries\n\n"@,
        context.reviews@.len(),
        review_entries(context.reviews@),
    ) + section(
        "\n## Review comment threads\n\n"@,
        context.threads@.len(),
        thread_entries(thread_views(context.threads@)),
    ) + section(
        "\n## Failing checks\n\n"@,
        context.failing_checks@.len(),
        check_entries(context.failing_checks@),
    ) + nothing_found(context)
}

/// The whole prompt: the requester's instructions come after the feedback.
pub open spec fn composed(context: FollowUpContext, instructions: Option<Seq<char>>) -> Seq<char> {
    opening(context.pr) + feedback(context) + instructions_section(instructions)
}

/// Appends one review summary.
fn push_review(out: &mut String, review: &Review)
    ensures
        final(out)@ == old(out)@ + review_entry(*review),
{
    let ghost before = out@;
    out.append("### @");
    out.append(login(review.user.as_ref()));
    out.append(" (");
    let state: Vec<char> = chars_of(review.state.as_str());
    let ghost with_head = out@;
    for i in 0..state.len()
        invariant
            state@ == review.state@,
            out@ == with_head + state_words(review.state@).take(i as int),
    {
        let c: char = to_lower_char(state[i]);
        if c == '_' {
            out.push(' ');
        } else {
            out.push(c);
        }
    }
    assert(state_words(review.state@).take(state@.len() as int) =~= state_words(review.state@));
    out.append(")\n\n");
    match &review.body {
        Some(body) => {
            let text: String = quote(body.as_str());
            out.append(text.as_str());
        },
        None => {
            let text: String = quote("");
            proof {
                reveal_strlit("");
                assert(""@ =~= Seq::<char>::empty());
            }
            out.append(text.as_str());
        },
    }
    out.append("\n\n");
    assert(out@ =~= before + review_entry(*review));
}

/// Appends where in the change a comment stands.
fn push_location(out: &mut String, root: &ReviewComment)
    ensures
        final(out)@ == old(out)@ + location(*root),
{
    let ghost before = out@;
    out.append("`");
    out.append(root.path.as_str());
    match root.line {
        Some(line) => {
            out.append("` line ");
            push_chars(out, &to_decimal(line));
        },
        None => match root.original_line {
            Some(line) => {
                out.append("` (outdated; originally line ");
                push_chars(out, &to_decimal(line));
                out.append(")");
            },
            None => out.append("`"),
        },
    }
    assert(out@ =~= before + location(*root));
}

/// Appends the diff a comment was made on, when it has one.
fn push_hunk(out: &mut String, hunk: &Option<String>)
    ensures
        final(out)@ == old(out)@ + hunk_block(optional_text(*hunk)),
{
    broadcast use {lemma_concat_assoc, lemma_concat_empty};

    match hunk {
        Some(hunk) => {
            let chars: Vec<char> = chars_of(hunk.as_str());
            if trim(&chars).len() > 0 {
                out.append("```diff\n");
                push_chars(out, trim_end(&chars));
                out.append("\n```\n\n");
            }
        },
        None => {},
    }
}

/// Appends one reply.
fn push_reply(out: &mut String, reply: &ReviewComment)
    ensures
        final(out)@ == old(out)@ + reply_entry(*reply),
{
    broadcast use lemma_concat_assoc;

    out.append("\n↳ @");
    out.append(login(reply.user.as_ref()));
    out.append(" replied:\n");
    let text: String = quote(reply.body.as_str());
    out.append(text.as_str());
    out.append("\n");
}

/// Appends one thread.
fn push_thread(out: &mut String, thread: &ReviewThread)
    ensures
        final(out)@ == old(out)@ + thread_entry(thread@),
{
    broadcast use {lemma_concat_assoc, lemma_concat_empty};

    let root = &thread.root;
    out.append("### ");
    push_location(out, root);
    out.append(" — @");
    out.append(login(root.user.as_ref()));
    out.append("\n\n");
    push_hunk(out, &root.diff_hunk);
    let body: String = quote(root.body.as_str());
    out.append(body.as_str());
    out.append("\n");
    let ghost with_body = out@;
    for i in 0..thread.replies.len()
        invariant
            out@ == with_body + reply_entries(thread.replies@.take(i as int)),
    {
        broadcast use lemma_concat_assoc;

        push_reply(out, &thread.replies[i]);
        proof {
            assert(thread.replies@.take(i + 1).drop_last() =~= thread.replies@.take(i as int));
        }
    }
    assert(thread.replies@.take(thread.replies@.len() as int) =~= thread.replies@);
    out.append("\n");
}

/// Appends one failing check.
fn push_check(out: &mut String, run: &CheckRun)
    ensures
        final(out)@ == old(out)@ + check_entry(*run),
{
    let ghost before = out@;
    out.append("- ");
    out.append(run.name.as_str());
    out.append(" (");
    match &run.conclusion {
        Some(c) => out.append(c.as_str()),
        None => out.append("failed"),
    }
    out.append(")");
    match &run.details_url {
        Some(url) => {
            out.append(" — ");
            out.append(url.as_str());
        },
        None => match &run.html_url {
            Some(url) => {
                out.append(" — ");
                out.append(url.as_str());
            },
            None => {},
        },
    }
    out.append("\n");
    assert(out@ =~= before + check_entry(*run));
}

/// Appends the opening of the prompt.
fn push_opening(out: &mut String, pr: &PullRequest)
    ensures
        final(out)@ == old(out)@ + opening(*pr),
{
    let ghost before = out@;
    out.append("Address the review feedback on pull request ");
    out.append(pr.html_url.as_str());
    out.append(" (\"");
    out.append(pr.title.as_str());
    out.append("\").\nThe PR's branch is `");
    out.append(pr.head.name.as_str());
    out.append(
        "`, which is the branch you are checked out on. Push follow-up commits to that branch so the existing pull request updates. Do not open a new pull request and do not force-push.\n",
    );
    assert(out@ =~= before + opening(*pr));
}

/// Appends the requester's instructions, when there are any.
fn push_instructions(out: &mut String, instructions: Option<&str>)
    ensures
        final(out)@ == old(out)@ + instructions_section(
            match instructions {
                Some(t) => Some(t@),
                None => None,
            },
        ),
{
    let ghost before = out@;
    match instructions {
        Some(text) => {
            let chars: Vec<char> = chars_of(text);
            let words: &[char] = trim(&chars);
            if words.len() > 0 {
                out.append("\n## Instructions from the requester\n\n");
                push_chars(out, words);
                out.append("\n");
                assert(out@ =~= before + ("\n## Instructions from the requester\n\n"@ + words@
                    + "\n"@));
            } else {
                assert(before + Seq::<char>::empty() =~= before);
            }
        },
        None => {
            assert(before + Seq::<char>::empty() =~= before);
        },
    }
}

/// Four parts behind a beginning.
proof fn lemma_four_parts(
    start: Seq<char>,
    a: Seq<char>,
    b: Seq<char>,
    c: Seq<char>,
    d: Seq<char>,
)
    ensures
        start + a + b + c + d == start + (a + b + c + d),
{
    lemma_concat_assoc(start, a, b);
    lemma_concat_assoc(start, a + b, c);
    lemma_concat_assoc(start, a + b + c, d);
}

/// Render the agent-facing prompt for a follow-up session.
pub fn compose_input(context: &FollowUpContext, instructions: Option<&str>) -> (out: String)
    ensures
        out@ == composed(
            *context,
            match instructions {
                Some(t) => Some(t@),
                None => None,
            },
        ),
{
    let mut out = String::new();
    push_opening(&mut out, &context.pr);
    let ghost before_reviews = out@;
    assert(before_reviews =~= opening(context.pr));
    if context.reviews.len() > 0 {
        out.append("\n## Review summaries\n\n");
        for i in 0..context.reviews.len()
            invariant
                out@ == before_reviews + ("\n## Review summaries\n\n"@ + review_entries(
                    context.reviews@.take(i as int),
                )),
        {
            push_review(&mut out, &context.reviews[i]);
            proof {
                assert(context.reviews@.take(i + 1).drop_last() =~= context.reviews@.take(i as int));
            }
        }
        assert(context.reviews@.take(context.reviews@.len() as int) =~= context.reviews@);
    }
    assert(out@ =~= before_reviews + section(
        "\n## Review summaries\n\n"@,
        context.reviews@.len(),
        review_entries(context.reviews@),
    ));

    let ghost before_threads = out@;
    let ghost views = thread_views(context.threads@);
    if context.threads.len() > 0 {
        out.append("\n## Review comment threads\n\n");
        for i in 0..context.threads.len()
            invariant
                views == thread_views(context.threads@),
                out@ == before_threads + ("\n## Review comment threads\n\n"@ + thread_entries(
                    views.take(i as int),
                )),
        {
            push_thread(&mut out, &context.threads[i]);
            proof {
                assert(views.take(i + 1).drop_last() =~= views.take(i as int));
                assert(views.take(i + 1).last() == context.threads@[i as int]@);
            }
        }
        assert(views.take(views.len() as int) =~= views);
    }
    assert(out@ =~= before_threads + section(
        "\n## Review comment threads\n\n"@,
        context.threads@.len(),
        thread_entries(views),
    ));

    let ghost before_checks = out@;
    if context.failing_checks.len() > 0 {
        out.append("\n## Failing checks\n\n");
        for i in 0..context.failing_checks.len()
            invariant
                out@ == before_checks + ("\n## Failing checks\n\n"@ + check_entries(
                    context.failing_checks@.take(i as int),
                )),
        {
            push_check(&mut out, &context.failing_checks[i]);
            proof {
                assert(context.failing_checks@.take(i + 1).drop_last()
                    =~= context.failing_checks@.take(i as int));
            }
        }
        assert(context.failing_checks@.take(context.failing_checks@.len() as int)
            =~= context.failing_checks@);
    }
    assert(out@ =~= before_checks + section(
        "\n## Failing checks\n\n"@,
        context.failing_checks@.len(),
        check_entries(context.failing_checks@),
    ));

    let ghost before_note = out@;
    if context.reviews.len() == 0 && context.threads.len() == 0 && context.failing_checks.len()
        == 0 {
        out.append(
            "\nNo open review comments or failing checks were found when this session was created.\n",
        );
    }
    assert(out@ =~= before_note + nothing_found(*context));
    proof {
        lemma_four_parts(
            opening(context.pr),
            section(
                "\n## Review summaries\n\n"@,
                context.reviews@.len(),
                review_entries(context.reviews@),
            ),
            section(
                "\n## Review comment threads\n\n"@,
                context.threads@.len(),
                thread_entries(views),
            ),
            section(
                "\n## Failing checks\n\n"@,
                context.failing_checks@.len(),
                check_entries(context.failing_checks@),
            ),
            nothing_found(*context),
        );
    }
    push_instructions(&mut out, instructions);
    out
}

/// A review whose body says something.
pub open spec fn has_summary(review: Review) -> bool {
    match review.body {
        Some(b) => trimmed(b@).len() > 0,
        None => false,
    }
}

/// A check run that finished without success.
pub open spec fn is_failing(run: CheckRun) -> bool {
    run.status@ == "completed"@ && match run.conclusion {
        Some(c) => c@ == "failure"@ || c@ == "timed_out"@ || c@ == "cancelled"@ || c@
            == "action_required"@ || c@ == "startup_failure"@,
        None => false,
    }
}

fn keeps_summary(review: &Review) -> (r: bool)
    ensures
        r == has_summary(*review),
{
    match &review.body {
        Some(body) => {
            let chars: Vec<char> = chars_of(body.as_str());
            trim(&chars).len() > 0
        },
        None => false,
    }
}

fn keeps_check(run: &CheckRun) -> (r: bool)
    ensures
        r == is_failing(*run),
{
    same_text(run.status.as_str(), "completed") && match &run.conclusion {
        Some(c) => {
            let c: &str = c.as_str();
            same_text(c, "failure") || same_text(c, "timed_out") || same_text(c, "cancelled")
                || same_text(c, "action_required") || same_text(c, "startup_failure")
        },
        None => false,
    }
}

/// What a follow-up is composed from, given what GitHub holds about the pull
/// request: the reviews that say something, the comments grouped into threads
/// and the checks that finished without success, each in GitHub's order.
pub fn assemble_context(
    pr: PullRequest,
    reviews: Vec<Review>,
    comments: Vec<ReviewComment>,
    check_runs: Vec<CheckRun>,
) -> (context: FollowUpContext)
    ensures
        context.pr == pr,
        context.reviews@ == reviews@.filter(|r: Review| has_summary(r)),
        thread_views(context.threads@) == threads_of(comments@),
        context.failing_checks@ == check_runs@.filter(|c: CheckRun| is_failing(c)),
{
    let ghost wants_review = |r: Review| has_summary(r);
    let ghost wants_check = |c: CheckRun| is_failing(c);
    let ghost all_reviews = reviews@;
    let mut kept_reviews: Vec<Review> = Vec::new();
    proof {
        reveal(Seq::filter);
        assert(all_reviews.take(0) =~= Seq::empty());
    }
    for review in it: reviews
        invariant
            it.seq() == all_reviews,
            wants_review == (|r: Review| has_summary(r)),
            kept_reviews@ == all_reviews.take(it.index() as int).filter(wants_review),
    {
        proof {
            reveal(Seq::filter);
            let i = it.index() as int;
            assert(all_reviews.take(i + 1).drop_last() =~= all_reviews.take(i));
            assert(all_reviews.take(i + 1).last() == review);
        }
        if keeps_summary(&review) {
            kept_reviews.push(review);
        }
    }
    assert(all_reviews.take(all_reviews.len() as int) =~= all_reviews);

    let ghost all_checks = check_runs@;
    let mut kept_checks: Vec<CheckRun> = Vec::new();
    assert(all_checks.take(0) =~= Seq::empty());
    for run in it: check_runs
        invariant
            it.seq() == all_checks,
            wants_check == (|c: CheckRun| is_failing(c)),
            kept_checks@ == all_checks.take(it.index() as int).filter(wants_check),
    {
        proof {
            reveal(Seq::filter);
            let i = it.index() as int;
            assert(all_checks.take(i + 1).drop_last() =~= all_checks.take(i));
            assert(all_checks.take(i + 1).last() == run);
        }
        if keeps_check(&run) {
            kept_checks.push(run);
        }
    }
    assert(all_checks.take(all_checks.len() as int) =~= all_checks);

    FollowUpContext {
        pr,
        reviews: kept_reviews,
        threads: group_threads(comments),
        failing_checks: kept_checks,
    }
}

// --- what reaches the agent -----------------------------------------------------------

/// A user is named by the login, and called unknown without one.
pub open spec fn author(user: Option<GitHubUser>) -> Seq<char> {
    match user {
        Some(u) => u.login@,
        None => "unknown"@,
    }
}

/// A review's state in words.
pub open spec fn in_words(state: Seq<char>) -> Seq<char> {
    Seq::new(
        state.len(),
        |i: int|
            if state[i] == '_' {
                ' '
            } else if 'A' <= state[i] <= 'Z' {
                (state[i] as u32 + 32) as char
            } else {
                state[i]
            },
    )
}

/// What the agent reads of each review: who wrote it, the verdict in words and
/// the text.
pub open spec fn review_texts(reviews: Seq<Review>) -> Seq<Seq<char>> {
    Seq::new(
        reviews.len(),
        |i: int|
            "### @"@ + author(reviews[i].user) + " ("@ + in_words(reviews[i].state@) + ")\n\n"@
                + quoted(
                match reviews[i].body {
                    Some(b) => b@,
                    None => Seq::empty(),
                },
            ) + "\n\n"@,
    )
}

/// What the agent reads of each reply: who wrote it and the text.
pub open spec fn reply_texts(replies: Seq<ReviewComment>) -> Seq<Seq<char>> {
    Seq::new(
        replies.len(),
        |i: int|
            "\n↳ @"@ + author(replies[i].user) + " replied:\n"@ + quoted(replies[i].body@) + "\n"@,
    )
}

/// Where a comment stands: on its line, on the line that it was made on before
/// the change moved, or in its file.
pub open spec fn place(root: ReviewComment) -> Seq<char> {
    if root.line is Some {
        "`"@ + root.path@ + "` line "@ + decimal(root.line->0 as nat)
    } else if root.original_line is Some {
        "`"@ + root.path@ + "` (outdated; originally line "@ + decimal(
            root.original_line->0 as nat,
        ) + ")"@
    } else {
        "`"@ + root.path@ + "`"@
    }
}

/// What the agent reads of each thread: where it is, who began it, the diff
/// that it is about unless that is blank, the text, and all replies.
pub open spec fn thread_texts(threads: Seq<ReviewThread>) -> Seq<Seq<char>> {
    Seq::new(
        threads.len(),
        |i: int|
            "### "@ + place(threads[i].root) + " — @"@ + author(threads[i].root.user) + "\n\n"@
                + (match threads[i].root.diff_hunk {
                Some(h) => if trimmed(h@).len() > 0 {
                    "```diff\n"@ + trimmed_end(h@) + "\n```\n\n"@
                } else {
                    Seq::empty()
                },
                None => Seq::empty(),
            }) + quoted(threads[i].root.body@) + "\n"@ + concatenated(
                reply_texts(threads[i].replies@),
            ) + "\n"@,
    )
}

/// What the agent reads of each failing check: its name, how it ended and
/// where it can be looked at.
pub open spec fn check_texts(runs: Seq<CheckRun>) -> Seq<Seq<char>> {
    Seq::new(
        runs.len(),
        |i: int|
            "- "@ + runs[i].name@ + " ("@ + (match runs[i].conclusion {
                Some(c) => c@,
                None => "failed"@,
            }) + ")"@ + (if runs[i].details_url is Some {
                " — "@ + runs[i].details_url->0@
            } else if runs[i].html_url is Some {
                " — "@ + runs[i].html_url->0@
            } else {
                Seq::empty()
            }) + "\n"@,
    )
}

proof fn lemma_in_words(state: Seq<char>)
    ensures
        state_words(state) == in_words(state),
{
    assert forall|i: int| 0 <= i < state.len() implies state_words(state)[i] == in_words(
        state,
    )[i] by {
        let c = state[i];
        if 'A' <= c <= 'Z' {
            assert(((c as u8) + 32) as u8 as char == (c as u32 + 32) as char);
        }
    }
    assert(state_words(state) =~= in_words(state));
}

#[verifier::spinoff_prover]
#[verifier::rlimit(40)]
proof fn lemma_review_texts(reviews: Seq<Review>)
    ensures
        review_entries(reviews) == concatenated(review_texts(reviews)),
    decreases reviews.len(),
{
    let texts = review_texts(reviews);
    if reviews.len() > 0 {
        let front = reviews.drop_last();
        lemma_review_texts(front);
        lemma_in_words(reviews.last().state@);
        assert(texts.drop_last() =~= review_texts(front));
        assert(texts.last() == review_entry(reviews.last()));
    }
}

proof fn lemma_reply_texts(replies: Seq<ReviewComment>)
    ensures
        reply_entries(replies) == concatenated(reply_texts(replies)),
    decreases replies.len(),
{
    let texts = reply_texts(replies);
    if replies.len() > 0 {
        let front = replies.drop_last();
        lemma_reply_texts(front);
        assert(texts.drop_last() =~= reply_texts(front));
        assert(texts.last() == reply_entry(replies.last()));
    }
}

#[verifier::spinoff_prover]
#[verifier::rlimit(40)]
proof fn lemma_thread_texts(threads: Seq<ReviewThread>)
    ensures
        thread_entries(thread_views(threads)) == concatenated(thread_texts(threads)),
    decreases threads.len(),
{
    let texts = thread_texts(threads);
    let views = thread_views(threads);
    if threads.len() > 0 {
        let front = threads.drop_last();
        lemma_thread_texts(front);
        lemma_reply_texts(threads.last().replies@);
        assert(views.drop_last() =~= thread_views(front));
        assert(views.last() == threads.last()@);
        assert(texts.drop_last() =~= thread_texts(front));
        assert(texts.last() == thread_entry(views.last()));
    }
}

#[verifier::spinoff_prover]
#[verifier::rlimit(40)]
proof fn lemma_check_texts(runs: Seq<CheckRun>)
    ensures
        check_entries(runs) == concatenated(check_texts(runs)),
    decreases runs.len(),
{
    let texts = check_texts(runs);
    if runs.len() > 0 {
        let front = runs.drop_last();
        lemma_check_texts(front);
        assert(texts.drop_last() =~= check_texts(front));
        assert(texts.last() == check_entry(runs.last()));
    }
}

/// Nothing of the feedback is dropped, reordered or made up: behind an opening
/// that names the pull request, its title and its branch, the prompt holds
/// every review, every thread and every failing check of the context, one
/// after another, and then the requester's instructions.
#[verifier::spinoff_prover]
#[verifier::rlimit(40)]
pub proof fn the_prompt_holds_all_feedback_in_order(
    context: &FollowUpContext,
    instructions: Option<&str>,
    prompt: String,
)
    requires
        call_ensures(compose_input, (context, instructions), prompt),
    ensures
        prompt@ == "Address the review feedback on pull request "@ + context.pr.html_url@ + " (\""@
            + context.pr.title@ + "\").\nThe PR's branch is `"@ + context.pr.head.name@
            + "`, which is the branch you are checked out on. Push follow-up commits to that branch so the existing pull request updates. Do not open a new pull request and do not force-push.\n"@
            + ((if context.reviews@.len() > 0 {
            "\n## Review summaries\n\n"@ + concatenated(review_texts(context.reviews@))
        } else {
            Seq::empty()
        }) + (if context.threads@.len() > 0 {
            "\n## Review comment threads\n\n"@ + concatenated(thread_texts(context.threads@))
        } else {
            Seq::empty()
        }) + (if context.failing_checks@.len() > 0 {
            "\n## Failing checks\n\n"@ + concatenated(check_texts(context.failing_checks@))
        } else {
            Seq::empty()
        }) + (if context.reviews@.len() == 0 && context.threads@.len() == 0
            && context.failing_checks@.len() == 0 {
            "\nNo open review comments or failing checks were found when this session was created.\n"@
        } else {
            Seq::empty()
        })) + (match instructions {
            Some(text) => if trimmed(text@).len() > 0 {
                "\n## Instructions from the requester\n\n"@ + trimmed(text@) + "\n"@
            } else {
                Seq::empty()
            },
            None => Seq::empty(),
        }),
{
    lemma_review_texts(context.reviews@);
    lemma_thread_texts(context.threads@);
    lemma_check_texts(context.failing_checks@);
}

/// The part stands in the text, with something before and something behind.
pub open spec fn holds(s: Seq<char>, part: Seq<char>) -> bool {
    exists|a: Seq<char>, b: Seq<char>| s == #[trigger] (a + part + b)
}

proof fn lemma_holds_part(before: Seq<char>, part: Seq<char>, behind: Seq<char>, inner: Seq<char>)
    requires
        holds(part, inner),
    ensures
        holds(before + part + behind, inner),
{
    let (a, b) = choose|a: Seq<char>, b: Seq<char>| part == #[trigger] (a + inner + b);
    assert(before + part + behind =~= (before + a) + inner + (b + behind));
}

proof fn lemma_holds_listed(texts: Seq<Seq<char>>, i: int)
    requires
        0 <= i < texts.len(),
    ensures
        holds(concatenated(texts), texts[i]),
    decreases texts.len(),
{
    let front = texts.drop_last();
    let none = Seq::<char>::empty();
    if i == texts.len() - 1 {
        assert(concatenated(texts) =~= concatenated(front) + texts[i] + none);
    } else {
        lemma_holds_listed(front, i);
        assert(front[i] == texts[i]);
        lemma_holds_part(none, concatenated(front), texts.last(), texts[i]);
        assert(none + concatenated(front) + texts.last() =~= concatenated(texts));
    }
}

proof fn lemma_around_threads(
    start: Seq<char>,
    summaries: Seq<char>,
    heading: Seq<char>,
    threads: Seq<char>,
    checks: Seq<char>,
    note: Seq<char>,
    end: Seq<char>,
)
    ensures
        start + (summaries + (heading + threads) + checks + note) + end == (start + summaries
            + heading) + threads + (checks + note + end),
{
    let all = summaries + (heading + threads) + checks + note;
    lemma_concat_assoc(summaries, heading, threads);
    assert(start + all =~= (start + summaries + heading) + threads + (checks + note)) by {
        lemma_four_parts(start, summaries, heading + threads, checks, note);
        lemma_concat_assoc(start + summaries, heading, threads);
        lemma_concat_assoc(start + summaries + heading + threads, checks, note);
    }
    lemma_concat_assoc(start + summaries + heading + threads, checks + note, end);
}

/// Every reply reaches the agent: for each thread of the context the prompt
/// holds all its replies one after another, each with its author and its
/// quoted text, none left out.
#[verifier::spinoff_prover]
#[verifier::rlimit(40)]
pub proof fn every_reply_reaches_the_agent(
    context: &FollowUpContext,
    instructions: Option<&str>,
    prompt: String,
    t: int,
    i: int,
)
    requires
        call_ensures(compose_input, (context, instructions), prompt),
        0 <= t < context.threads@.len(),
    ensures
        holds(prompt@, concatenated(reply_texts(context.threads@[t].replies@))),
        0 <= i < context.threads@[t].replies@.len() ==> holds(
            prompt@,
            "\n↳ @"@ + author(context.threads@[t].replies@[i].user) + " replied:\n"@ + quoted(
                context.threads@[t].replies@[i].body@,
            ) + "\n"@,
        ),
{
    let thread = context.threads@[t];
    let replies = concatenated(reply_texts(thread.replies@));
    let texts = thread_texts(context.threads@);
    let all = concatenated(texts);
    let none = Seq::<char>::empty();
    lemma_thread_texts(context.threads@);
    lemma_holds_listed(texts, t);
    let head = "### "@ + place(thread.root) + " — @"@ + author(thread.root.user) + "\n\n"@ + (
    match thread.root.diff_hunk {
        Some(h) => if trimmed(h@).len() > 0 {
            "```diff\n"@ + trimmed_end(h@) + "\n```\n\n"@
        } else {
            Seq::empty()
        },
        None => Seq::empty(),
    }) + quoted(thread.root.body@) + "\n"@;
    assert(texts[t] == head + replies + "\n"@);
    // From the prompt down to the replies.
    let heading = "\n## Review comment threads\n\n"@;
    let summaries = section(
        "\n## Review summaries\n\n"@,
        context.reviews@.len(),
        review_entries(context.reviews@),
    );
    let checks = section(
        "\n## Failing checks\n\n"@,
        context.failing_checks@.len(),
        check_entries(context.failing_checks@),
    );
    let before = opening(context.pr) + summaries + heading;
    let behind = checks + nothing_found(*context) + instructions_section(
        match instructions {
            Some(t) => Some(t@),
            None => None,
        },
    );
    lemma_around_threads(
        opening(context.pr),
        summaries,
        heading,
        all,
        checks,
        nothing_found(*context),
        instructions_section(
            match instructions {
                Some(t) => Some(t@),
                None => None,
            },
        ),
    );
    assert(prompt@ == before + all + behind);
    assert(holds(texts[t], replies)) by {
        assert(texts[t] == head + replies + "\n"@);
    }
    let (a, b) = choose|a: Seq<char>, b: Seq<char>| all == #[trigger] (a + texts[t] + b);
    lemma_holds_part(a, texts[t], b, replies);
    lemma_holds_part(before, all, behind, replies);
    if 0 <= i < thread.replies@.len() {
        lemma_holds_listed(reply_texts(thread.replies@), i);
        let (c, d) = choose|c: Seq<char>, d: Seq<char>| prompt@ == #[trigger] (c + replies + d);
        lemma_holds_part(c, replies, d, reply_texts(thread.replies@)[i]);
    }
}

/// Quoting puts a mark before every line and changes nothing else.
pub proof fn quoting_marks_every_line(body: &str, r: String)
    requires
        call_ensures(quote, (body,), r),
    ensures
        r@ == joined(
            Seq::new(lines_of(body@).len(), |i: int| "> "@ + lines_of(body@)[i]),
            "\n"@,
        ),
{
    assert(lines_of(body@).map_values(|line: Seq<char>| "> "@ + line) =~= Seq::new(
        lines_of(body@).len(),
        |i: int| "> "@ + lines_of(body@)[i],
    ));
}

/// Instructions are added to the prompt and change nothing else of it; blank
/// ones add nothing.
pub proof fn instructions_only_add(
    context: &FollowUpContext,
    text: &str,
    with: String,
    without: String,
)
    requires
        call_ensures(compose_input, (context, Some(text)), with),
        call_ensures(compose_input, (context, None::<&str>), without),
    ensures
        with@ == without@ + if trimmed(text@).len() > 0 {
            "\n## Instructions from the requester\n\n"@ + trimmed(text@) + "\n"@
        } else {
            Seq::empty()
        },
{
    broadcast use lemma_concat_empty;

}

/// What a follow-up is composed from: of the reviews those that say something,
/// of the checks those that finished and did not succeed, in their order, and
/// every comment in the threads.
pub proof fn a_context_holds_what_needs_attention(
    pr: PullRequest,
    reviews: Vec<Review>,
    comments: Vec<ReviewComment>,
    check_runs: Vec<CheckRun>,
    context: FollowUpContext,
)
    requires
        call_ensures(assemble_context, (pr, reviews, comments, check_runs), context),
    ensures
        context.pr == pr,
        context.reviews@ == reviews@.filter(
            |r: Review| r.body is Some && trimmed(r.body->0@).len() > 0,
        ),
        context.failing_checks@ == check_runs@.filter(
            |c: CheckRun|
                c.status@ == "completed"@ && c.conclusion is Some && seq![
                    "failure"@,
                    "timed_out"@,
                    "cancelled"@,
                    "action_required"@,
                    "startup_failure"@,
                ].contains(c.conclusion->0@),
        ),
        all_members(thread_views(context.threads@)) =~= comments@.to_multiset(),
{
    grouping_keeps_every_comment(comments@);
    let speaks = |r: Review| r.body is Some && trimmed(r.body->0@).len() > 0;
    let names = seq![
        "failure"@,
        "timed_out"@,
        "cancelled"@,
        "action_required"@,
        "startup_failure"@,
    ];
    let fails = |c: CheckRun|
        c.status@ == "completed"@ && c.conclusion is Some && seq![
            "failure"@,
            "timed_out"@,
            "cancelled"@,
            "action_required"@,
            "startup_failure"@,
        ].contains(c.conclusion->0@);
    assert forall|r: Review| #[trigger] speaks(r) == has_summary(r) by {}
    assert forall|c: CheckRun| #[trigger] fails(c) == is_failing(c) by {
        if c.conclusion is Some {
            let name = c.conclusion->0@;
            assert(names[0] == "failure"@ && names[1] == "timed_out"@ && names[2]
                == "cancelled"@ && names[3] == "action_required"@ && names[4]
                == "startup_failure"@);
            if names.contains(name) {
                let i = choose|i: int| 0 <= i < names.len() && names[i] == name;
                assert(0 <= i < 5);
            }
        }
    }
    lemma_same_filter(reviews@, speaks, |r: Review| has_summary(r));
    lemma_same_filter(check_runs@, fails, |c: CheckRun| is_failing(c));
}

proof fn lemma_same_filter<T>(s: Seq<T>, p: spec_fn(T) -> bool, q: spec_fn(T) -> bool)
    requires
        forall|t: T| #[trigger] p(t) == q(t),
    ensures
        s.filter(p) == s.filter(q),
    decreases s.len(),
{
    reveal(Seq::filter);
    if s.len() > 0 {
        lemma_same_filter(s.drop_last(), p, q);
        assert(p(s.last()) == q(s.last()));
    }
}

/// A reply joins the thread of the comment it answers: no reply to a comment
/// that began a thread stands as a thread of its own.
pub proof fn replies_join_their_thread(cs: Seq<ReviewComment>, i: int, j: int)
    requires
        0 <= i < threads_of(cs).len(),
        0 <= j < cs.len(),
        cs[j].in_reply_to_id is None,
    ensures
        threads_of(cs)[i].root.in_reply_to_id != Some(cs[j].id),
{
    let (ts, orphans) = threads_and_orphans(cs);
    let roots = cs.filter(|c: ReviewComment| c.in_reply_to_id is None);
    lemma_first_pass_answers(cs);
    lemma_filter_keeps(cs, j);
    let k = choose|k: int| 0 <= k < roots.len() && roots[k] == cs[j];
    assert(ts.map_values(|t: ThreadView| t.root)[k] == ts[k].root);
    lemma_roots_answer_nothing(cs);
    lemma_orphans_find_roots(ts, orphans, k);
    if i < ts.len() {
        lemma_second_pass_answers(ts, orphans);
        assert(threads_of(cs)[i].root == ts[i].root);
    }
}

proof fn lemma_filter_keeps(cs: Seq<ReviewComment>, j: int)
    requires
        0 <= j < cs.len(),
        cs[j].in_reply_to_id is None,
    ensures
        cs.filter(|c: ReviewComment| c.in_reply_to_id is None).contains(cs[j]),
    decreases cs.len(),
{
    reveal(Seq::filter);
    let kept = cs.filter(|c: ReviewComment| c.in_reply_to_id is None);
    let front = cs.drop_last();
    let less = front.filter(|c: ReviewComment| c.in_reply_to_id is None);
    if j == cs.len() - 1 {
        assert(kept[less.len() as int] == cs[j]);
    } else {
        lemma_filter_keeps(front, j);
        let k = choose|k: int| 0 <= k < less.len() && less[k] == front[j];
        assert(kept[k] == cs[j]);
    }
}

proof fn lemma_roots_answer_nothing(cs: Seq<ReviewComment>)
    ensures
        forall|i: int|
            0 <= i < threads_and_orphans(cs).0.len() ==> (
            #[trigger] threads_and_orphans(cs).0[i]).root.in_reply_to_id is None,
    decreases cs.len(),
{
    if cs.len() > 0 {
        lemma_roots_answer_nothing(cs.drop_last());
    }
}

proof fn lemma_no_thread_with_root(ts: Seq<ThreadView>, id: u64, k: int)
    requires
        0 <= k < ts.len(),
        ts[k].root.id == id,
    ensures
        thread_with_root(ts, id) < ts.len(),
    decreases ts.len(),
{
    if ts[0].root.id != id {
        assert(ts.skip(1)[k - 1] == ts[k]);
        lemma_no_thread_with_root(ts.skip(1), id, k - 1);
    }
}

proof fn lemma_orphans_find_roots(ts: Seq<ThreadView>, orphans: Seq<ReviewComment>, k: int)
    requires
        0 <= k < ts.len(),
        forall|i: int| 0 <= i < ts.len() ==> replies_answer_root(#[trigger] ts[i]),
        forall|i: int| 0 <= i < orphans.len() ==> (#[trigger] orphans[i]).in_reply_to_id is Some,
    ensures
        forall|i: int|
            ts.len() <= i < with_orphans(ts, orphans).len() ==> (#[trigger] with_orphans(
                ts,
                orphans,
            )[i]).root.in_reply_to_id != Some(ts[k].root.id),
    decreases orphans.len(),
{
    if orphans.len() > 0 {
        let less = orphans.drop_last();
        assert forall|i: int| 0 <= i < less.len() implies (
        #[trigger] less[i]).in_reply_to_id is Some by {
            assert(orphans[i].in_reply_to_id is Some);
        }
        lemma_orphans_find_roots(ts, less, k);
        lemma_second_pass_answers(ts, less);
        let before = with_orphans(ts, less);
        assert(before[k].root == ts[k].root);
        let c = orphans.last();
        assert(orphans[orphans.len() - 1].in_reply_to_id is Some);
        lemma_thread_with_root(before, c.in_reply_to_id->0);
        if c.in_reply_to_id == Some(ts[k].root.id) {
            lemma_no_thread_with_root(before, ts[k].root.id, k);
        }
    }
}

/// Replies stand in the order in which they came: one more reply to a comment
/// that began the `k`th thread, and no earlier one, is the last of that thread,
/// and nothing else changes, when every reply came after the comment it
/// answers.
pub proof fn replies_stand_in_their_order(cs: Seq<ReviewComment>, reply: ReviewComment, k: int)
    requires
        threads_and_orphans(cs).1.len() == 0,
        0 <= k < threads_of(cs).len(),
        reply.in_reply_to_id == Some(threads_of(cs)[k].root.id),
        forall|j: int|
            0 <= j < k ==> (#[trigger] threads_of(cs)[j]).root.id != threads_of(cs)[k].root.id,
    ensures
        threads_of(cs.push(reply)).len() == threads_of(cs).len(),
        threads_of(cs.push(reply))[k].root == threads_of(cs)[k].root,
        threads_of(cs.push(reply))[k].replies == threads_of(cs)[k].replies.push(reply),
        forall|j: int|
            0 <= j < threads_of(cs).len() && j != k ==> #[trigger] threads_of(cs.push(reply))[j]
                == threads_of(cs)[j],
{
    assert(cs.push(reply).drop_last() =~= cs);
    lemma_thread_with_root_is(threads_and_orphans(cs).0, threads_of(cs)[k].root.id, k);
}

/// The replies among the comments to the comment with this id, in their order.
pub open spec fn replies_to(cs: Seq<ReviewComment>, id: u64) -> Seq<ReviewComment> {
    cs.filter(|c: ReviewComment| c.in_reply_to_id == Some(id))
}

proof fn lemma_replies_to_push(cs: Seq<ReviewComment>, c: ReviewComment, id: u64)
    ensures
        replies_to(cs.push(c), id) == if c.in_reply_to_id == Some(id) {
            replies_to(cs, id).push(c)
        } else {
            replies_to(cs, id)
        },
{
    reveal(Seq::filter);
    assert(cs.push(c).drop_last() =~= cs);
}

/// As long as no comment with this id began a thread, what answers it is left
/// aside.
proof fn lemma_root_missing(cs: Seq<ReviewComment>, id: u64)
    requires
        forall|i: int|
            0 <= i < cs.len() ==> ((#[trigger] cs[i]).in_reply_to_id is None ==> cs[i].id != id),
    ensures
        replies_to(threads_and_orphans(cs).1, id) == replies_to(cs, id),
        forall|j: int|
            0 <= j < threads_and_orphans(cs).0.len() ==> (
            #[trigger] threads_and_orphans(cs).0[j]).root.id != id,
    decreases cs.len(),
{
    if cs.len() > 0 {
        let front = cs.drop_last();
        let c = cs.last();
        assert(cs[cs.len() - 1] == c);
        assert forall|i: int| 0 <= i < front.len() implies ((
        #[trigger] front[i]).in_reply_to_id is None ==> front[i].id != id) by {
            assert(front[i] == cs[i]);
        }
        lemma_root_missing(front, id);
        let (ts, orphans) = threads_and_orphans(front);
        assert(cs =~= front.push(c));
        lemma_replies_to_push(front, c, id);
        lemma_replies_to_push(orphans, c, id);
        if let Some(parent) = c.in_reply_to_id {
            lemma_thread_with_root(ts, parent);
        }
    }
}

/// The thread of the only comment with its id holds, after the first pass,
/// what answered it later, and what answered it earlier is left aside.
proof fn lemma_first_pass_thread(cs: Seq<ReviewComment>, pos: int) -> (k: int)
    requires
        0 <= pos < cs.len(),
        cs[pos].in_reply_to_id is None,
        forall|i: int|
            0 <= i < cs.len() && i != pos ==> ((#[trigger] cs[i]).in_reply_to_id is None ==> cs[i].id
                != cs[pos].id),
    ensures
        0 <= k < threads_and_orphans(cs).0.len(),
        threads_and_orphans(cs).0[k].root == cs[pos],
        threads_and_orphans(cs).0[k].replies == replies_to(cs.skip(pos + 1), cs[pos].id),
        replies_to(threads_and_orphans(cs).1, cs[pos].id) == replies_to(
            cs.take(pos),
            cs[pos].id,
        ),
        forall|j: int|
            0 <= j < threads_and_orphans(cs).0.len() && j != k ==> (
            #[trigger] threads_and_orphans(cs).0[j]).root.id != cs[pos].id,
    decreases cs.len(),
{
    let id = cs[pos].id;
    let front = cs.drop_last();
    let c = cs.last();
    let (ts, orphans) = threads_and_orphans(front);
    assert(cs =~= front.push(c));
    if pos == cs.len() - 1 {
        assert forall|i: int| 0 <= i < front.len() implies ((
        #[trigger] front[i]).in_reply_to_id is None ==> front[i].id != id) by {
            assert(front[i] == cs[i]);
        }
        lemma_root_missing(front, id);
        assert(cs.take(pos) =~= front);
        assert(cs.skip(pos + 1) =~= Seq::empty());
        reveal(Seq::filter);
        ts.len() as int
    } else {
        assert forall|i: int| 0 <= i < front.len() && i != pos implies ((
        #[trigger] front[i]).in_reply_to_id is None ==> front[i].id != front[pos].id) by {
            assert(front[i] == cs[i]);
        }
        let k = lemma_first_pass_thread(front, pos);
        assert(front.take(pos) =~= cs.take(pos));
        assert(cs.skip(pos + 1) =~= front.skip(pos + 1).push(c));
        lemma_replies_to_push(front.skip(pos + 1), c, id);
        lemma_replies_to_push(orphans, c, id);
        assert(cs[cs.len() - 1] == c);
        if let Some(parent) = c.in_reply_to_id {
            lemma_thread_with_root(ts, parent);
            if parent == id {
                lemma_no_thread_with_root(ts, id, k);
            }
        }
        k
    }
}

proof fn lemma_second_pass_thread(
    ts: Seq<ThreadView>,
    orphans: Seq<ReviewComment>,
    k: int,
)
    requires
        0 <= k < ts.len(),
        forall|j: int| 0 <= j < k ==> (#[trigger] ts[j]).root.id != ts[k].root.id,
        forall|i: int| 0 <= i < orphans.len() ==> (#[trigger] orphans[i]).in_reply_to_id is Some,
    ensures
        with_orphans(ts, orphans).len() >= ts.len(),
        with_orphans(ts, orphans)[k].root == ts[k].root,
        with_orphans(ts, orphans)[k].replies == ts[k].replies + replies_to(
            orphans,
            ts[k].root.id,
        ),
        forall|j: int|
            0 <= j < k ==> (#[trigger] with_orphans(ts, orphans)[j]).root.id != ts[k].root.id,
    decreases orphans.len(),
{
    let id = ts[k].root.id;
    if orphans.len() == 0 {
        reveal(Seq::filter);
        assert(ts[k].replies + replies_to(orphans, id) =~= ts[k].replies);
    } else {
        let less = orphans.drop_last();
        let c = orphans.last();
        assert(orphans[orphans.len() - 1] == c);
        assert forall|i: int| 0 <= i < less.len() implies (
        #[trigger] less[i]).in_reply_to_id is Some by {
            assert(orphans[i].in_reply_to_id is Some);
        }
        lemma_second_pass_thread(ts, less, k);
        let before = with_orphans(ts, less);
        assert(orphans =~= less.push(c));
        lemma_replies_to_push(less, c, id);
        let parent = c.in_reply_to_id->0;
        lemma_thread_with_root(before, parent);
        if parent == id {
            assert forall|j: int| 0 <= j < k implies (#[trigger] before[j]).root.id != id by {}
            lemma_thread_with_root_is(before, id, k);
            assert((ts[k].replies + replies_to(less, id)).push(c) =~= ts[k].replies + replies_to(
                less,
                id,
            ).push(c));
        }
    }
}

/// A comment that began a thread, and whose number is its own, heads a thread
/// with everything that answers it: what came after it, and then what came
/// before it, each in the order in which it came.
pub proof fn threads_hold_their_replies_in_order(
    comments: Vec<ReviewComment>,
    threads: Vec<ReviewThread>,
    pos: int,
) -> (k: int)
    requires
        call_ensures(group_threads, (comments,), threads),
        0 <= pos < comments@.len(),
        comments@[pos].in_reply_to_id is None,
        forall|i: int|
            0 <= i < comments@.len() && i != pos ==> ((
            #[trigger] comments@[i]).in_reply_to_id is None ==> comments@[i].id
                != comments@[pos].id),
    ensures
        0 <= k < threads@.len(),
        threads@[k].root == comments@[pos],
        ({
            let answers = |c: ReviewComment| c.in_reply_to_id == Some(comments@[pos].id);
            threads@[k].replies@ == comments@.skip(pos + 1).filter(answers) + comments@.take(
                pos,
            ).filter(answers)
        }),
{
    let k = lemma_first_pass_thread(comments@, pos);
    let (ts, orphans) = threads_and_orphans(comments@);
    lemma_first_pass_answers(comments@);
    lemma_second_pass_thread(ts, orphans, k);
    assert(thread_views(threads@)[k] == threads@[k]@);
    let answers = |c: ReviewComment| c.in_reply_to_id == Some(comments@[pos].id);
    assert(answers =~= (|c: ReviewComment| c.in_reply_to_id == Some(comments@[pos].id)));
    k
}

/// A reply to a comment that is missing comes last: in the thread that an
/// earlier comment with that number heads, or else in a thread of its own
/// behind all others, which stay as they are.
pub proof fn replies_to_missing_comments_come_last(
    before: Vec<ReviewComment>,
    earlier: Vec<ReviewThread>,
    reply: ReviewComment,
    parent: u64,
    after: Vec<ReviewComment>,
    later: Vec<ReviewThread>,
    k: int,
    j: int,
)
    requires
        call_ensures(group_threads, (before,), earlier),
        call_ensures(group_threads, (after,), later),
        after@ == before@.push(reply),
        reply.in_reply_to_id == Some(parent),
        forall|i: int|
            0 <= i < before@.len() ==> ((#[trigger] before@[i]).in_reply_to_id is None
                ==> before@[i].id != parent),
        0 <= k <= earlier@.len(),
        forall|i: int| 0 <= i < k ==> (#[trigger] earlier@[i]).root.id != parent,
        k < earlier@.len() ==> earlier@[k].root.id == parent,
    ensures
        k < earlier@.len() ==> later@.len() == earlier@.len() && later@[k].root == earlier@[k].root
            && later@[k].replies@ == earlier@[k].replies@.push(reply),
        k == earlier@.len() ==> later@.len() == k + 1 && later@[k].root == reply
            && later@[k].replies@.len() == 0,
        0 <= j < earlier@.len() && j != k ==> later@[j]@ == earlier@[j]@,
{
    let cs = before@;
    assert(after@.drop_last() =~= cs);
    lemma_root_missing(cs, parent);
    let (ts, orphans) = threads_and_orphans(cs);
    lemma_thread_with_root_is(ts, parent, ts.len() as int);
    assert(orphans.push(reply).drop_last() =~= orphans);
    let old_views = thread_views(earlier@);
    let new_views = thread_views(later@);
    assert forall|i: int| 0 <= i < k implies (#[trigger] old_views[i]).root.id != parent by {
        assert(old_views[i] == earlier@[i]@);
    }
    if k < earlier@.len() {
        assert(old_views[k] == earlier@[k]@);
    }
    lemma_thread_with_root_is(old_views, parent, k);
    assert(new_views.len() == later@.len());
    if k < later@.len() {
        assert(new_views[k] == later@[k]@);
    }
    if 0 <= j < earlier@.len() && j < later@.len() {
        assert(new_views[j] == later@[j]@);
        assert(old_views[j] == earlier@[j]@);
    }
}

/// The comments that answer nothing head the first threads, in their order.
pub proof fn threads_stand_in_the_order_of_their_heads(
    comments: Vec<ReviewComment>,
    threads: Vec<ReviewThread>,
    i: int,
)
    requires
        call_ensures(group_threads, (comments,), threads),
        0 <= i < comments@.filter(|c: ReviewComment| c.in_reply_to_id is None).len(),
    ensures
        i < threads@.len(),
        threads@[i].root == comments@.filter(|c: ReviewComment| c.in_reply_to_id is None)[i],
{
    grouping_follows_replies(comments@);
    assert(thread_views(threads@).len() == threads@.len());
    assert(thread_views(threads@)[i] == threads@[i]@);
}

/// The comments of a context are grouped as they are by themselves.
pub proof fn contexts_group_their_comments(
    pr: PullRequest,
    reviews: Vec<Review>,
    comments: Vec<ReviewComment>,
    check_runs: Vec<CheckRun>,
    context: FollowUpContext,
    threads: Vec<ReviewThread>,
    i: int,
)
    requires
        call_ensures(assemble_context, (pr, reviews, comments, check_runs), context),
        call_ensures(group_threads, (comments,), threads),
    ensures
        context.threads@.len() == threads@.len(),
        0 <= i < threads@.len() ==> context.threads@[i].root == threads@[i].root
            && context.threads@[i].replies@ == threads@[i].replies@,
{
    let a = thread_views(context.threads@);
    let b = thread_views(threads@);
    assert(a.len() == context.threads@.len() && b.len() == threads@.len());
    if 0 <= i < threads@.len() {
        assert(a[i] == context.threads@[i]@ && b[i] == threads@[i]@);
    }
}

/// A user is mentioned by their login, and as unknown without one.
pub proof fn users_are_mentioned_by_login(user: &GitHubUser, named: &str, unnamed: &str)
    requires
        call_ensures(login, (Some(user),), named),
        call_ensures(login, (None::<&GitHubUser>,), unnamed),
    ensures
        named@ == user.login@,
        unnamed@ == "unknown"@,
{
}

} // verus!
