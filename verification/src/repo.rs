//! A session's clone of its repository: how it is made, and what became of
//! the work in it.

use vstd::prelude::*;
use vstd::string::*;

use crate::host::{join_path, path_joined};
use crate::json::{member, text_of_value, Json, JsonView};
use crate::model::SessionOutcome;
use crate::text::{
    all_white, chars_of, find_char, first_index, is_white, lemma_first_index_is,
    lemma_trimmed_start_skip,
    lemma_word_len, same_chars, same_text, split_word, string_views, text_of, trim, trim_start,
    trimmed, trimmed_end, trimmed_start, word_len,
};

verus! {

/// A clone that is ready to be worked in.
#[derive(Debug)]
pub struct PreparedRepo {
    pub repo_dir: String,
    pub token_file: String,
    pub base_commit: String,
    pub base_branch: String,
}

/// Where the clone stands.
pub fn repo_dir(workdir: &str) -> (r: String)
    ensures
        r@ == path_joined(workdir@, "repo"@),
{
    join_path(workdir, "repo")
}

/// Where the token stands that the clone's credential helper reads.
pub fn token_file(workdir: &str) -> (r: String)
    ensures
        r@ == path_joined(workdir@, "github-token"@),
{
    join_path(workdir, "github-token")
}

/// The address a repository is cloned from. It holds no credential: the clone
/// authenticates via the credential helper, which reads the token file, so the
/// token never appears in argv or errors.
pub fn clone_url(repo: &str) -> (r: String)
    ensures
        r@ == "https://github.com/"@ + repo@ + ".git"@,
{
    let mut out = "https://github.com/".to_owned();
    out.append(repo);
    out.append(".git");
    out
}

/// The configuration of the clone's credential helper.
pub open spec fn helper_setting(token_file: Seq<char>) -> Seq<char> {
    "credential.helper="@
        + "!f() { test \"$1\" = get && echo username=x-access-token && echo \"password=$(cat '"@
        + token_file + "')\"; }; f"@
}

/// The configuration of the clone's credential helper, a shell function that
/// reads the token file.
pub fn helper_config(token_file: &str) -> (r: String)
    ensures
        r@ == helper_setting(token_file@),
{
    let mut out = "credential.helper=".to_owned();
    out.append(
        "!f() { test \"$1\" = get && echo username=x-access-token && echo \"password=$(cat '",
    );
    out.append(token_file);
    out.append("')\"; }; f");
    out
}

/// The arguments of `git` that make the clone.
pub open spec fn clone_arguments(
    clone_url: Seq<char>,
    base_branch: Option<Seq<char>>,
    repo_dir: Seq<char>,
    token_file: Seq<char>,
) -> Seq<Seq<char>> {
    seq!["clone"@, "-c"@, helper_setting(token_file), "--depth"@, "50"@] + (match base_branch {
        Some(branch) => seq!["--branch"@, branch],
        None => Seq::empty(),
    }) + seq![clone_url, repo_dir]
}

/// The arguments of `git` that make the clone. `git clone -c` writes the
/// config into the new repository before fetching, so it both authenticates
/// the clone and stays configured for later pushes.
pub fn clone_args(
    clone_url: &str,
    base_branch: Option<&str>,
    repo_dir: &str,
    token_file: &str,
) -> (r: Vec<String>)
    ensures
        string_views(r@) == clone_arguments(
            clone_url@,
            match base_branch {
                Some(b) => Some(b@),
                None => None,
            },
            repo_dir@,
            token_file@,
        ),
{
    let mut args: Vec<String> = Vec::new();
    args.push("clone".to_owned());
    args.push("-c".to_owned());
    args.push(helper_config(token_file));
    args.push("--depth".to_owned());
    args.push("50".to_owned());
    match base_branch {
        Some(branch) => {
            args.push("--branch".to_owned());
            args.push(branch.to_owned());
        },
        None => {},
    }
    args.push(clone_url.to_owned());
    args.push(repo_dir.to_owned());
    assert(string_views(args@) =~= clone_arguments(
        clone_url@,
        match base_branch {
            Some(b) => Some(b@),
            None => None,
        },
        repo_dir@,
        token_file@,
    ));
    args
}

/// The clone that was made in `workdir`, given the output of
/// `git rev-parse HEAD` and `git rev-parse --abbrev-ref HEAD`.
pub fn prepared_repo(workdir: &str, head: &str, branch: &str) -> (r: PreparedRepo)
    ensures
        r.repo_dir@ == path_joined(workdir@, "repo"@),
        r.token_file@ == path_joined(workdir@, "github-token"@),
        r.base_commit@ == trimmed(head@),
        r.base_branch@ == trimmed(branch@),
{
    PreparedRepo {
        repo_dir: repo_dir(workdir),
        token_file: token_file(workdir),
        base_commit: text_of(trim(&chars_of(head))),
        base_branch: text_of(trim(&chars_of(branch))),
    }
}

// --- what became of the work -----------------------------------------------------------

/// The outcome of a session's work, as the host detects it.
#[derive(Debug)]
pub struct Outcome {
    pub kind: String,
    pub pr_url: Option<String>,
    pub branch: Option<String>,
}

/// An outcome as a mathematical value.
pub struct OutcomeView {
    pub kind: Seq<char>,
    pub pr_url: Option<Seq<char>>,
    pub branch: Option<Seq<char>>,
}

impl View for Outcome {
    type V = OutcomeView;

    open spec fn view(&self) -> OutcomeView {
        OutcomeView {
            kind: self.kind@,
            pr_url: match self.pr_url {
                Some(u) => Some(u@),
                None => None,
            },
            branch: match self.branch {
                Some(b) => Some(b@),
                None => None,
            },
        }
    }
}

/// Work that is only in the clone.
pub open spec fn uncommitted(branch: Seq<char>) -> OutcomeView {
    OutcomeView { kind: "uncommitted_changes"@, pr_url: None, branch: Some(branch) }
}

/// No work at all.
pub open spec fn unchanged() -> OutcomeView {
    OutcomeView { kind: "no_changes"@, pr_url: None, branch: None }
}

/// Work on the remote, with or without a pull request.
pub open spec fn pushed(branch: Seq<char>, pr_url: Option<Seq<char>>) -> OutcomeView {
    match pr_url {
        Some(url) => OutcomeView { kind: "pr_opened"@, pr_url: Some(url), branch: Some(branch) },
        None => OutcomeView { kind: "pushed_no_pr"@, pr_url: None, branch: Some(branch) },
    }
}

/// The first word of a text, when it has one.
pub open spec fn first_word(s: Seq<char>) -> Option<Seq<char>> {
    let t = trimmed_start(s);
    if t.len() > 0 {
        Some(t.take(word_len(t)))
    } else {
        None
    }
}

/// The outcome, given everything that can be asked about the clone: the
/// branch, its head, what `git status --porcelain` says, what `git ls-remote`
/// says about the branch, and the open pull request.
pub open spec fn outcome_of(
    base_branch: Seq<char>,
    base_commit: Seq<char>,
    branch: Seq<char>,
    head: Seq<char>,
    status: Seq<char>,
    remote: Seq<char>,
    pr_url: Option<Seq<char>>,
) -> OutcomeView {
    if trimmed(status).len() > 0 {
        uncommitted(branch)
    } else if branch == base_branch && head == base_commit {
        unchanged()
    } else if first_word(remote) != Some(head) {
        // Missing remote ref or unpushed local commits: nothing (fully) on GitHub.
        uncommitted(branch)
    } else {
        pushed(branch, pr_url)
    }
}

/// What is asked next about the clone.
#[derive(Debug)]
pub enum Inspection {
    /// Nothing: this is the outcome.
    Settled(Outcome),
    /// Committed work exists; is it (fully) on the remote? Ask `git ls-remote`
    /// about the branch.
    AskRemote { branch: String, head: String },
}

/// Begins to inspect the clone after the agent ran, given the output of
/// `git rev-parse --abbrev-ref HEAD`, `git rev-parse HEAD` and
/// `git status --porcelain`.
pub fn inspect(
    prepared: &PreparedRepo,
    branch_output: &str,
    head_output: &str,
    status_output: &str,
) -> (r: Inspection)
    ensures
        ({
            let branch = trimmed(branch_output@);
            let head = trimmed(head_output@);
            match r {
                Inspection::Settled(outcome) => forall|remote: Seq<char>, pr: Option<Seq<char>>|
                    outcome@ == #[trigger] outcome_of(
                        prepared.base_branch@,
                        prepared.base_commit@,
                        branch,
                        head,
                        status_output@,
                        remote,
                        pr,
                    ),
                Inspection::AskRemote { branch: b, head: h } => {
                    &&& b@ == branch
                    &&& h@ == head
                    &&& trimmed(status_output@).len() == 0
                    &&& !(branch == prepared.base_branch@ && head == prepared.base_commit@)
                },
            }
        }),
        r is Settled ==> trimmed(status_output@).len() > 0 || (trimmed(branch_output@)
            == prepared.base_branch@ && trimmed(head_output@) == prepared.base_commit@),
{
    let branch: String = text_of(trim(&chars_of(branch_output)));
    let head: String = text_of(trim(&chars_of(head_output)));
    if trim(&chars_of(status_output)).len() > 0 {
        return Inspection::Settled(
            Outcome {
                kind: "uncommitted_changes".to_owned(),
                pr_url: None,
                branch: Some(branch),
            },
        );
    }
    if same_text(branch.as_str(), prepared.base_branch.as_str()) && same_text(
        head.as_str(),
        prepared.base_commit.as_str(),
    ) {
        return Inspection::Settled(
            Outcome { kind: "no_changes".to_owned(), pr_url: None, branch: None },
        );
    }
    Inspection::AskRemote { branch, head }
}

/// True when the remote's branch is at `head`, given the output of
/// `git ls-remote`.
pub fn is_pushed(head: &str, remote_output: &str) -> (r: bool)
    ensures
        r == (first_word(remote_output@) == Some(head@)),
{
    let chars: Vec<char> = chars_of(remote_output);
    let t: &[char] = trim_start(&chars);
    if t.len() == 0 {
        return false;
    }
    let (word, _) = split_word(t);
    same_chars(word, &chars_of(head))
}

/// Ends the inspection of committed work: whether it is on the remote, and
/// the open pull request when one was found.
pub fn settle(branch: String, on_remote: bool, pr_url: Option<String>) -> (r: Outcome)
    ensures
        r@ == if on_remote {
            pushed(
                branch@,
                match pr_url {
                    Some(u) => Some(u@),
                    None => None,
                },
            )
        } else {
            uncommitted(branch@)
        },
{
    if !on_remote {
        return Outcome {
            kind: "uncommitted_changes".to_owned(),
            pr_url: None,
            branch: Some(branch),
        };
    }
    match pr_url {
        Some(url) => Outcome {
            kind: "pr_opened".to_owned(),
            pr_url: Some(url),
            branch: Some(branch),
        },
        None => Outcome { kind: "pushed_no_pr".to_owned(), pr_url: None, branch: Some(branch) },
    }
}

/// Inspect the workspace after the agent ran, with every answer at hand. A
/// pull request is looked up only for work that is on the remote.
pub fn detect_outcome(
    prepared: &PreparedRepo,
    branch_output: &str,
    head_output: &str,
    status_output: &str,
    remote_output: &str,
    pr_url: Option<String>,
) -> (r: Outcome)
    ensures
        r@ == outcome_of(
            prepared.base_branch@,
            prepared.base_commit@,
            trimmed(branch_output@),
            trimmed(head_output@),
            status_output@,
            remote_output@,
            match pr_url {
                Some(u) => Some(u@),
                None => None,
            },
        ),
{
    match inspect(prepared, branch_output, head_output, status_output) {
        Inspection::Settled(outcome) => outcome,
        Inspection::AskRemote { branch, head } => settle(
            branch,
            is_pushed(head.as_str(), remote_output),
            pr_url,
        ),
    }
}

/// Work is never reported as published unless it is: an outcome that names a
/// pull request or a pushed branch comes only from a clean clone whose head is
/// the remote's.
pub proof fn published_work_is_on_the_remote(
    base_branch: Seq<char>,
    base_commit: Seq<char>,
    branch: Seq<char>,
    head: Seq<char>,
    status: Seq<char>,
    remote: Seq<char>,
    pr_url: Option<Seq<char>>,
)
    ensures
        ({
            let outcome = outcome_of(
                base_branch,
                base_commit,
                branch,
                head,
                status,
                remote,
                pr_url,
            );
            outcome.kind == "pr_opened"@ || outcome.kind == "pushed_no_pr"@ ==> {
                &&& trimmed(status).len() == 0
                &&& first_word(remote) == Some(head)
            }
        }),
{
    reveal_strlit("pr_opened");
    reveal_strlit("pushed_no_pr");
    reveal_strlit("uncommitted_changes");
    reveal_strlit("no_changes");
    assert("uncommitted_changes"@.len() != "pr_opened"@.len());
    assert("uncommitted_changes"@.len() != "pushed_no_pr"@.len());
    assert("no_changes"@.len() != "pr_opened"@.len());
    assert("no_changes"@.len() != "pushed_no_pr"@.len());
}

/// The outcome as it is reported to the server.
pub fn reported(outcome: Outcome) -> (r: SessionOutcome)
    ensures
        r.kind == outcome.kind,
        r.pr_url == outcome.pr_url,
        r.branch == outcome.branch,
{
    SessionOutcome { kind: outcome.kind, pr_url: outcome.pr_url, branch: outcome.branch }
}

// --- the open pull request -----------------------------------------------------------

/// The address that lists the open pull requests of a branch.
pub open spec fn open_pulls_address(repo: Seq<char>, branch: Seq<char>) -> Seq<char> {
    "https://api.github.com/repos/"@ + repo + "/pulls?head="@ + repo.take(first_index(repo, '/'))
        + ":"@ + branch + "&state=open"@
}

/// The address that lists the open pull requests of a branch.
pub fn open_pulls_url(repo: &str, branch: &str) -> (r: String)
    ensures
        r@ == open_pulls_address(repo@, branch@),
{
    let chars: Vec<char> = chars_of(repo);
    let end: usize = find_char(&chars, '/');
    let mut out = "https://api.github.com/repos/".to_owned();
    out.append(repo);
    out.append("/pulls?head=");
    proof {
        assert(chars@.subrange(0, end as int) =~= repo@.take(end as int));
    }
    out.append(text_of(&chars[0..end]).as_str());
    out.append(":");
    out.append(branch);
    out.append("&state=open");
    out
}

/// The page of the first pull request of a list.
pub open spec fn first_pull(pulls: JsonView) -> Option<Seq<char>> {
    match pulls {
        JsonView::Array(items) => if items.len() > 0 {
            text_of_value(member(items[0], "html_url"@))
        } else {
            None
        },
        _ => None,
    }
}

/// The page of the first pull request of a list.
pub fn find_open_pr(pulls: &Json) -> (r: Option<String>)
    ensures
        match r {
            Some(url) => first_pull(pulls@) == Some(url@),
            None => first_pull(pulls@) is None,
        },
{
    match pulls {
        Json::Array(items) => if items.len() > 0 {
            assert(pulls@->Array_0[0] == items@[0]@);
            match items[0].get_str("html_url") {
                Some(url) => Some(url.to_owned()),
                None => None,
            }
        } else {
            None
        },
        _ => None,
    }
}

// --- what an outcome says -----------------------------------------------------------

/// A text whose first word is this.
pub open spec fn begins_with_word(
    s: Seq<char>,
    lead: Seq<char>,
    word: Seq<char>,
    rest: Seq<char>,
) -> bool {
    &&& s == lead + word + rest
    &&& all_white(lead)
    &&& word.len() > 0
    &&& forall|i: int| 0 <= i < word.len() ==> !is_white(#[trigger] word[i])
    &&& rest.len() > 0 ==> is_white(rest[0])
}

proof fn lemma_first_word(s: Seq<char>, lead: Seq<char>, word: Seq<char>, rest: Seq<char>)
    requires
        begins_with_word(s, lead, word, rest),
    ensures
        first_word(s) == Some(word),
{
    assert forall|j: int| 0 <= j < lead.len() implies is_white(#[trigger] s[j]) by {
        assert(s[j] == lead[j]);
    }
    lemma_trimmed_start_skip(s, lead.len() as int);
    let t = s.skip(lead.len() as int);
    assert(t =~= word + rest);
    assert(t[0] == word[0]);
    assert(trimmed_start(t) == t);
    assert forall|j: int| 0 <= j < word.len() implies !is_white(#[trigger] t[j]) by {
        assert(t[j] == word[j]);
    }
    if rest.len() > 0 {
        assert(t[word.len() as int] == rest[0]);
    }
    lemma_word_len(t, word.len() as int);
    assert(t.take(word.len() as int) =~= word);
}

proof fn lemma_blank(s: Seq<char>)
    requires
        all_white(s),
    ensures
        trimmed_start(s).len() == 0,
        trimmed(s).len() == 0,
{
    lemma_trimmed_start_skip(s, s.len() as int);
    assert(s.skip(s.len() as int) =~= Seq::<char>::empty());
}

/// Work that is on the remote is reported so: a clean clone with anything new
/// in it, whose head is the first word of the remote's answer, has its pull
/// request when one is given and a pushed branch when none is, whichever
/// branch it is on. When the answer begins with anything else, the work is
/// only in the clone.
pub proof fn pushed_work_is_reported_as_pushed(
    prepared: &PreparedRepo,
    branch_output: &str,
    head_output: &str,
    status_output: &str,
    remote_output: &str,
    pr_url: Option<String>,
    outcome: Outcome,
    lead: Seq<char>,
    word: Seq<char>,
    rest: Seq<char>,
)
    requires
        call_ensures(
            detect_outcome,
            (prepared, branch_output, head_output, status_output, remote_output, pr_url),
            outcome,
        ),
        all_white(status_output@),
        trimmed(head_output@) != prepared.base_commit@ || trimmed(branch_output@)
            != prepared.base_branch@,
        begins_with_word(remote_output@, lead, word, rest),
    ensures
        outcome.branch matches Some(b) && b@ == trimmed(branch_output@),
        word == trimmed(head_output@) ==> match pr_url {
            Some(url) => outcome.kind@ == "pr_opened"@ && (outcome.pr_url matches Some(u) && u@
                == url@),
            None => outcome.kind@ == "pushed_no_pr"@ && outcome.pr_url is None,
        },
        word != trimmed(head_output@) ==> outcome.kind@ == "uncommitted_changes"@
            && outcome.pr_url is None,
{
    lemma_blank(status_output@);
    lemma_first_word(remote_output@, lead, word, rest);
}

/// Work that is nowhere but in the clone is reported so, with its branch:
/// whatever `git status` lists, and commits of which the remote says nothing.
pub proof fn work_left_behind_is_reported(
    prepared: &PreparedRepo,
    branch_output: &str,
    head_output: &str,
    status_output: &str,
    remote_output: &str,
    pr_url: Option<String>,
    outcome: Outcome,
)
    requires
        call_ensures(
            detect_outcome,
            (prepared, branch_output, head_output, status_output, remote_output, pr_url),
            outcome,
        ),
    ensures
        !all_white(status_output@) || (all_white(remote_output@) && (trimmed(head_output@)
            != prepared.base_commit@ || trimmed(branch_output@) != prepared.base_branch@)) ==> {
            &&& outcome.kind@ == "uncommitted_changes"@
            &&& outcome.pr_url is None
            &&& outcome.branch matches Some(b) && b@ == trimmed(branch_output@)
        },
        all_white(status_output@) && trimmed(head_output@) == prepared.base_commit@ && trimmed(
            branch_output@,
        ) == prepared.base_branch@ ==> outcome.kind@ == "no_changes"@ && outcome.pr_url is None
            && outcome.branch is None,
{
    if all_white(status_output@) {
        lemma_blank(status_output@);
        if all_white(remote_output@) {
            lemma_blank(remote_output@);
        }
    } else {
        lemma_trimmed_none(status_output@);
    }
}

proof fn lemma_trimmed_none(s: Seq<char>)
    ensures
        trimmed(s).len() == 0 ==> all_white(s),
    decreases s.len(),
{
    if s.len() > 0 && trimmed(s).len() == 0 {
        if is_white(s[0]) {
            let rest = s.skip(1);
            lemma_trimmed_none(rest);
            assert forall|i: int| 0 <= i < s.len() implies is_white(#[trigger] s[i]) by {
                if i > 0 {
                    assert(rest[i - 1] == s[i]);
                }
            }
        } else {
            lemma_trimmed_end_reaches(s);
        }
    }
}

proof fn lemma_trimmed_end_reaches(s: Seq<char>)
    requires
        s.len() > 0,
        !is_white(s[0]),
    ensures
        trimmed_end(s).len() > 0,
    decreases s.len(),
{
    if is_white(s.last()) {
        lemma_trimmed_end_reaches(s.drop_last());
    }
}

/// The remote is asked about committed work in a clean clone and about nothing
/// else, with the branch and the head that the clone is at.
pub proof fn the_remote_is_asked_about_new_commits(
    prepared: &PreparedRepo,
    branch_output: &str,
    head_output: &str,
    status_output: &str,
    r: Inspection,
)
    requires
        call_ensures(inspect, (prepared, branch_output, head_output, status_output), r),
    ensures
        r is AskRemote ==> all_white(status_output@) && (trimmed(head_output@)
            != prepared.base_commit@ || trimmed(branch_output@) != prepared.base_branch@),
        r matches Inspection::AskRemote { branch, head } ==> branch@ == trimmed(branch_output@)
            && head@ == trimmed(head_output@),
        all_white(status_output@) && (trimmed(head_output@) != prepared.base_commit@ || trimmed(
            branch_output@,
        ) != prepared.base_branch@) ==> r is AskRemote,
{
    if all_white(status_output@) {
        lemma_blank(status_output@);
    } else {
        lemma_trimmed_none(status_output@);
    }
}

/// The page of a pull request that was found is that of the first one listed.
pub proof fn the_first_listed_pull_request_is_found(
    pulls: &Json,
    r: Option<String>,
    items: Seq<JsonView>,
    url: Seq<char>,
)
    requires
        call_ensures(find_open_pr, (pulls,), r),
        pulls@ == JsonView::Array(items),
    ensures
        items.len() == 0 ==> r is None,
        items.len() > 0 && member(items[0], "html_url"@) == JsonView::Text(url) ==> (
        r matches Some(u) && u@ == url),
        items.len() > 0 && !(member(items[0], "html_url"@) is Text) ==> r is None,
{
}

/// The clone is made from the repository's address into the clone's
/// directory, of the branch when one is named, and authenticates by a helper
/// that reads the token file.
pub proof fn clones_name_what_they_clone(
    clone_url: &str,
    base_branch: Option<&str>,
    repo_dir: &str,
    token_file: &str,
    args: Vec<String>,
    helper: String,
)
    requires
        call_ensures(clone_args, (clone_url, base_branch, repo_dir, token_file), args),
        call_ensures(helper_config, (token_file,), helper),
    ensures
        ({
            let n = args@.len();
            &&& n >= 7
            &&& args@[0]@ == "clone"@
            &&& args@[1]@ == "-c"@
            &&& args@[2]@ == helper@
            &&& args@[n - 2]@ == clone_url@
            &&& args@[n - 1]@ == repo_dir@
            &&& match base_branch {
                Some(branch) => n == 9 && args@[5]@ == "--branch"@ && args@[6]@ == branch@,
                None => n == 7,
            }
        }),
        helper@ == "credential.helper=!f() { test \"$1\" = get && echo username=x-access-token && echo \"password=$(cat '"@
            + token_file@ + "')\"; }; f"@,
{
    let views = string_views(args@);
    let n = views.len() as int;
    assert(args@.len() == n);
    assert(views[0] == args@[0]@ && views[1] == args@[1]@ && views[2] == args@[2]@);
    assert(views[n - 2] == args@[n - 2]@ && views[n - 1] == args@[n - 1]@);
    assert(views[5] == args@[5]@ && views[6] == args@[6]@);
    reveal_strlit("credential.helper=");
    reveal_strlit("!f() { test \"$1\" = get && echo username=x-access-token && echo \"password=$(cat '");
    reveal_strlit("credential.helper=!f() { test \"$1\" = get && echo username=x-access-token && echo \"password=$(cat '");
    assert("credential.helper="@ + "!f() { test \"$1\" = get && echo username=x-access-token && echo \"password=$(cat '"@
        =~= "credential.helper=!f() { test \"$1\" = get && echo username=x-access-token && echo \"password=$(cat '"@);
}

/// A clone has the depth of fifty commits, whatever its branch.
pub proof fn clones_are_fifty_commits_deep(
    clone_url: &str,
    base_branch: Option<&str>,
    repo_dir: &str,
    token_file: &str,
    args: Vec<String>,
)
    requires
        call_ensures(clone_args, (clone_url, base_branch, repo_dir, token_file), args),
    ensures
        args@.len() >= 7,
        args@[3]@ == "--depth"@,
        args@[4]@ == "50"@,
{
    let views = string_views(args@);
    assert(args@.len() == views.len());
    assert(views[3] == args@[3]@ && views[4] == args@[4]@);
}

/// A clone stands beside the file with its token in the session's directory,
/// comes from GitHub without a credential in its address, and starts from the
/// commit and branch that `git` names.
pub proof fn clones_start_where_git_says(
    workdir: &str,
    repo: &str,
    address: String,
    directory: String,
    token: String,
    head: &str,
    branch: &str,
    r: PreparedRepo,
)
    requires
        call_ensures(clone_url, (repo,), address),
        call_ensures(repo_dir, (workdir,), directory),
        call_ensures(token_file, (workdir,), token),
        call_ensures(prepared_repo, (workdir, head, branch), r),
        workdir@.len() > 0,
    ensures
        address@ == "https://github.com/"@ + repo@ + ".git"@,
        ({
            let under = if workdir@.last() == '/' {
                workdir@
            } else {
                workdir@ + "/"@
            };
            &&& directory@ == under + "repo"@
            &&& token@ == under + "github-token"@
        }),
        r.repo_dir@ == directory@,
        r.token_file@ == token@,
        r.base_commit@ == trimmed(head@),
        r.base_branch@ == trimmed(branch@),
{
}

/// Work is on the remote when the remote's answer begins with its commit; the
/// outcome is reported as it was detected.
pub proof fn the_remotes_first_word_is_its_commit(
    head: &str,
    remote: &str,
    r: bool,
    lead: Seq<char>,
    word: Seq<char>,
    rest: Seq<char>,
    outcome: Outcome,
    told: SessionOutcome,
)
    requires
        call_ensures(is_pushed, (head, remote), r),
        call_ensures(reported, (outcome,), told),
    ensures
        begins_with_word(remote@, lead, word, rest) ==> (r <==> word == head@),
        all_white(remote@) ==> !r,
        told.kind@ == outcome.kind@ && told.pr_url == outcome.pr_url && told.branch
            == outcome.branch,
{
    if begins_with_word(remote@, lead, word, rest) {
        lemma_first_word(remote@, lead, word, rest);
    }
    if all_white(remote@) {
        assert forall|j: int| 0 <= j < remote@.len() implies is_white(#[trigger] remote@[j]) by {}
        lemma_trimmed_start_skip(remote@, remote@.len() as int);
        assert(remote@.skip(remote@.len() as int) =~= Seq::<char>::empty());
    }
}

/// Open pull requests are looked for in the repository, from the branch of its
/// owner.
pub proof fn open_pull_requests_are_listed_by_branch(
    repo: &str,
    branch: &str,
    r: String,
    owner: Seq<char>,
    name: Seq<char>,
)
    requires
        call_ensures(open_pulls_url, (repo, branch), r),
        repo@ == owner + seq!['/'] + name,
        !owner.contains('/'),
    ensures
        r@ == "https://api.github.com/repos/"@ + repo@ + "/pulls?head="@ + owner + ":"@ + branch@
            + "&state=open"@,
{
    let n = owner.len() as int;
    assert forall|j: int| 0 <= j < n implies #[trigger] repo@[j] != '/' by {
        assert(repo@[j] == owner[j]);
    }
    lemma_first_index_is(repo@, '/', n);
    assert(repo@.take(n) =~= owner);
}

} // verus!
