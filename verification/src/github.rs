//! How the server talks to GitHub: who it is, which addresses it asks, what
//! the answers mean, and which pull requests are meant.

use vstd::prelude::*;
use vstd::string::*;

use crate::decimal::{
    decimal, decimal_int, lemma_decimal_digits, parse_signed, parse_unsigned,
    signed_numeral_round_trip, signed_value, to_decimal, unsigned_value,
};
use crate::follow_up::{GitHubUser, GitRef};
use crate::json::{object1, text_value, Json, JsonView};
use crate::table::Table;
use crate::text::{
    after_prefix, chars_of, cutting_at_the_first, fields, joined, joining_appends,
    lemma_fields_first, lemma_fields_one, lemma_split_pair, lowered, prefixes_come_off, push_chars,
    same_chars, same_text, slice_views, split_on, split_once, split_pair, splitting_and_joining,
    starts, strip_prefix, strip_trailing, text_of, to_lower, trim, trimmed, without_trailing,
};
use crate::time::{Timestamp, FIRST_SECS, LAST_SECS};

verus! {

// --- the App -----------------------------------------------------------

/// Installation tokens are reused for server-side reads until this close to
/// their expiry, in nanoseconds (GitHub issues them with a one-hour lifetime).
pub const READ_TOKEN_EXPIRY_MARGIN_NANOS: i128 = 300_000_000_000;

/// Why the text is no private key that the App can hold; `None` when it is
/// one.
pub uninterp spec fn rsa_pem_error(pem: Seq<char>) -> Option<Seq<char>>;

/// The signed token for these claims, or why there is none.
pub uninterp spec fn signed_jwt(
    pem: Seq<char>,
    iat: i64,
    exp: i64,
    iss: Seq<char>,
) -> Result<Seq<char>, Seq<char>>;

/// The text is a private key that the App can hold.
pub open spec fn is_rsa_pem(pem: Seq<char>) -> bool {
    rsa_pem_error(pem) is None
}

/// `jsonwebtoken::EncodingKey::from_rsa_pem` takes the text, or fails with an
/// error: which of the two, and the error's text, depends on the text alone.
#[verifier::external_body]
fn read_rsa_pem(pem: &str) -> (r: Result<(), String>)
    ensures
        match r {
            Ok(_) => rsa_pem_error(pem@) is None,
            Err(e) => rsa_pem_error(pem@) == Some(e@),
        },
{
    match jsonwebtoken::EncodingKey::from_rsa_pem(pem.as_bytes()) {
        Ok(_) => Ok(()),
        Err(error) => Err(error.to_string()),
    }
}

/// What the App claims of itself in a token: when it was issued, when it
/// expires and who issued it. The instants are seconds since the epoch.
#[derive(Debug)]
pub struct AppClaims {
    pub iat: i64,
    pub exp: i64,
    pub iss: String,
}

/// `jsonwebtoken::encode` with RS256 and these claims: whether a token comes
/// back, and which, or the error's text, depends on the key and the claims
/// alone (the signature scheme has no salt), and there is none when the text
/// is no key.
#[verifier::external_body]
fn rs256_jwt(pem: &str, claims: &AppClaims) -> (r: Result<String, String>)
    ensures
        match r {
            Ok(t) => signed_jwt(pem@, claims.iat, claims.exp, claims.iss@) == Ok::<
                Seq<char>,
                Seq<char>,
            >(t@),
            Err(e) => signed_jwt(pem@, claims.iat, claims.exp, claims.iss@) == Err::<
                Seq<char>,
                Seq<char>,
            >(e@),
        },
        !is_rsa_pem(pem@) ==> r is Err,
{
    let key = jsonwebtoken::EncodingKey::from_rsa_pem(pem.as_bytes()).map_err(|e| e.to_string())?;
    let header = jsonwebtoken::Header::new(jsonwebtoken::Algorithm::RS256);
    let mut map = serde_json::Map::new();
    map.insert(String::from("iat"), serde_json::Value::from(claims.iat));
    map.insert(String::from("exp"), serde_json::Value::from(claims.exp));
    map.insert(String::from("iss"), serde_json::Value::from(claims.iss.as_str()));
    jsonwebtoken::encode(&header, &map, &key).map_err(|e| e.to_string())
}

/// A GitHub App.
pub struct GitHubAppClient {
    app_id: u64,
    private_key_pem: String,
    api_base: String,
}

/// A token for one installation of the App.
#[derive(Debug)]
pub struct InstallationToken {
    pub token: String,
    pub expires_at: Timestamp,
}

impl GitHubAppClient {
    /// The App's number.
    pub closed spec fn id(&self) -> u64 {
        self.app_id
    }

    /// The App's private key.
    pub closed spec fn pem(&self) -> Seq<char> {
        self.private_key_pem@
    }

    /// The address of GitHub's API.
    pub closed spec fn base(&self) -> Seq<char> {
        self.api_base@
    }

    /// The App with this number and key, at this API; the key reader's error
    /// when the key is none.
    pub fn new(app_id: u64, private_key_pem: &str, api_base: String) -> (r: Result<
        GitHubAppClient,
        String,
    >)
        ensures
            match r {
                Ok(client) => is_rsa_pem(private_key_pem@) && client.id() == app_id && client.pem()
                    == private_key_pem@ && client.base() == api_base@,
                Err(e) => rsa_pem_error(private_key_pem@) == Some(e@),
            },
    {
        match read_rsa_pem(private_key_pem) {
            Ok(_) => Ok(
                GitHubAppClient {
                    app_id,
                    private_key_pem: private_key_pem.to_owned(),
                    api_base,
                },
            ),
            Err(error) => Err(error),
        }
    }

    /// The same App.
    pub fn copied(&self) -> (r: GitHubAppClient)
        ensures
            r.id() == self.id(),
            r.pem() == self.pem(),
            r.base() == self.base(),
    {
        GitHubAppClient {
            app_id: self.app_id,
            private_key_pem: self.private_key_pem.clone(),
            api_base: self.api_base.clone(),
        }
    }

    /// What the App claims at `now`, in seconds since the epoch: its token was
    /// issued a minute ago, for clock drift, and is good for nine minutes
    /// (GitHub's maximum is ten).
    pub fn app_claims(&self, now: i64) -> (r: AppClaims)
        requires
            FIRST_SECS <= now <= LAST_SECS,
        ensures
            r.iat == now - 60,
            r.exp == now + 540,
            r.iss@ == decimal(self.id() as nat),
    {
        AppClaims { iat: now - 60, exp: now + 540, iss: text_of(&to_decimal(self.app_id)) }
    }

    /// The token by which the App authenticates itself at `now`, or the
    /// signer's error.
    pub fn app_jwt(&self, now: i64) -> (r: Result<String, String>)
        requires
            FIRST_SECS <= now <= LAST_SECS,
        ensures
            match signed_jwt(
                self.pem(),
                (now - 60) as i64,
                (now + 540) as i64,
                decimal(self.id() as nat),
            ) {
                Ok(token) => r matches Ok(t) && t@ == token,
                Err(error) => r matches Err(e) && e@ == error,
            },
            r is Ok ==> is_rsa_pem(self.pem()),
    {
        rs256_jwt(self.private_key_pem.as_str(), &self.app_claims(now))
    }

    /// Where the App's installation on `repo` is asked for.
    pub fn installation_url(&self, repo: &str) -> (r: String)
        ensures
            r@ == self.base() + "/repos/"@ + repo@ + "/installation"@,
    {
        let mut out: String = self.api_base.clone();
        out.append("/repos/");
        out.append(repo);
        out.append("/installation");
        out
    }

    /// Where a token for an installation is minted.
    pub fn access_tokens_url(&self, installation: u64) -> (r: String)
        ensures
            r@ == self.base() + "/app/installations/"@ + decimal(installation as nat)
                + "/access_tokens"@,
    {
        let mut out: String = self.api_base.clone();
        out.append("/app/installations/");
        push_chars(&mut out, &to_decimal(installation));
        out.append("/access_tokens");
        out
    }
}

/// The body of the request for a token that is scoped to one repository.
pub open spec fn scoped_to(name: Seq<char>) -> JsonView {
    JsonView::Object(seq![("repositories"@, JsonView::Array(seq![JsonView::Text(name)]))])
}

/// The body of the request for a token scoped to `repo` ("owner/name").
pub fn token_request(repo: &str) -> (r: Result<Json, String>)
    ensures
        match split_pair(repo@, '/') {
            Some((_, name)) => r matches Ok(body) && body@ == scoped_to(name),
            None => r matches Err(e) && e@ == "bad repo"@,
        },
{
    match split_once(&chars_of(repo), '/') {
        Some((_, name)) => {
            let mut names: Vec<Json> = Vec::new();
            names.push(text_value(text_of(name).as_str()));
            let list = Json::Array(names);
            assert(list@->Array_0 =~= seq![JsonView::Text(name@)]);
            Ok(object1("repositories", list))
        },
        None => Err("bad repo".to_owned()),
    }
}

/// The error for a repository whose installation could not be asked for.
pub fn not_installed(repo: &str, error: &str) -> (r: String)
    ensures
        r@ == "app not installed on "@ + repo@ + "? "@ + error@,
{
    let mut out = "app not installed on ".to_owned();
    out.append(repo);
    out.append("? ");
    out.append(error);
    out
}

/// The token may still be used for reads at `now`.
pub open spec fn is_fresh(token: InstallationToken, now: Timestamp) -> bool {
    token.expires_at.instant() > now.instant() + READ_TOKEN_EXPIRY_MARGIN_NANOS
}

/// The kept token that `repo` may be read with at `now`.
pub open spec fn reusable_token(
    kept: Map<Seq<char>, InstallationToken>,
    repo: Seq<char>,
    now: Timestamp,
) -> Option<Seq<char>> {
    if kept.contains_key(repo) && is_fresh(kept[repo], now) {
        Some(kept[repo].token@)
    } else {
        None
    }
}

/// Installation tokens kept for the server's own reads, by repository.
#[derive(Debug)]
pub struct ReadTokens {
    tokens: Table<InstallationToken>,
}

impl View for ReadTokens {
    type V = Map<Seq<char>, InstallationToken>;

    closed spec fn view(&self) -> Map<Seq<char>, InstallationToken> {
        self.tokens@
    }
}

impl ReadTokens {
    /// No tokens.
    pub fn new() -> (r: ReadTokens)
        ensures
            r@ == Map::<Seq<char>, InstallationToken>::empty(),
    {
        ReadTokens { tokens: Table::new() }
    }

    /// The token to read `repo` with at `now`: one is minted once and reused
    /// until shortly before it expires. `None` when one is to be minted.
    pub fn reusable(&self, repo: &str, now: &Timestamp) -> (r: Option<&str>)
        ensures
            match r {
                Some(t) => reusable_token(self@, repo@, *now) == Some(t@),
                None => reusable_token(self@, repo@, *now) is None,
            },
    {
        match self.tokens.get(repo) {
            Some(cached) => {
                if cached.expires_at.to_nanos() > now.to_nanos() + READ_TOKEN_EXPIRY_MARGIN_NANOS {
                    Some(cached.token.as_str())
                } else {
                    None
                }
            },
            None => None,
        }
    }

    /// Keeps a minted token.
    pub fn keep(&mut self, repo: &str, minted: InstallationToken)
        ensures
            final(self)@ == old(self)@.insert(repo@, minted),
    {
        self.tokens.insert(repo, minted);
    }
}

/// How the server authenticates to GitHub: both the credentials it hands to
/// hosts and its own pull request reads (PR tracking, follow-up composition)
/// come from the same source.
pub enum GithubAuth {
    /// GitHub App: short-lived installation tokens minted per repository.
    App(GitHubAppClient),
    /// A personal access token used as-is for every repository.
    Pat(String),
}

impl GithubAuth {
    /// Pick the configured mode. The App takes precedence: a PAT configured
    /// alongside it is ignored. Neither → `None`.
    pub fn select(app: Option<GitHubAppClient>, pat: Option<String>) -> (r: Option<GithubAuth>)
        ensures
            r == match (app, pat) {
                (Some(app), _) => Some(GithubAuth::App(app)),
                (None, Some(pat)) => Some(GithubAuth::Pat(pat)),
                (None, None) => None,
            },
    {
        match (app, pat) {
            (Some(app), _) => Some(GithubAuth::App(app)),
            (None, Some(pat)) => Some(GithubAuth::Pat(pat)),
            (None, None) => None,
        }
    }

    /// "app" or "pat", for logs.
    pub fn kind(&self) -> (r: &'static str)
        ensures
            r@ == match self {
                GithubAuth::App(_) => "app"@,
                GithubAuth::Pat(_) => "pat"@,
            },
    {
        match self {
            GithubAuth::App(_) => "app",
            GithubAuth::Pat(_) => "pat",
        }
    }

    /// The token to read `repo` with, when it needs no minting: the PAT, or a
    /// kept installation token that is still fresh.
    pub fn token_for(&self, repo: &str, kept: &ReadTokens, now: &Timestamp) -> (r: Option<String>)
        ensures
            match self {
                GithubAuth::Pat(pat) => r matches Some(t) && t@ == pat@,
                GithubAuth::App(_) => match r {
                    Some(t) => reusable_token(kept@, repo@, *now) == Some(t@),
                    None => reusable_token(kept@, repo@, *now) is None,
                },
            },
    {
        match self {
            GithubAuth::Pat(pat) => Some(pat.clone()),
            GithubAuth::App(_) => match kept.reusable(repo, now) {
                Some(token) => Some(token.to_owned()),
                None => None,
            },
        }
    }
}

/// A minted token is reused for later reads of its repository for as long as
/// it is fresh, and for no other repository.
pub proof fn minted_token_is_reused(
    kept: Map<Seq<char>, InstallationToken>,
    repo: Seq<char>,
    minted: InstallationToken,
    other: Seq<char>,
    now: Timestamp,
)
    ensures
        reusable_token(kept.insert(repo, minted), repo, now) == if is_fresh(minted, now) {
            Some(minted.token@)
        } else {
            None
        },
        other != repo ==> reusable_token(kept.insert(repo, minted), other, now) == reusable_token(
            kept,
            other,
            now,
        ),
{
}

// --- Pull request reads (PR tracking + follow-up composition) ---------------

/// A pull request identified from its `html_url`.
#[derive(Debug, Clone, PartialEq, Eq)]
pub struct PullRef {
    pub owner: String,
    pub repo: String,
    pub number: u64,
}

/// What follows GitHub's address in a URL.
pub open spec fn github_path(url: Seq<char>) -> Option<Seq<char>> {
    match after_prefix(url, "https://github.com/"@) {
        Some(rest) => Some(rest),
        None => after_prefix(url, "http://github.com/"@),
    }
}

/// The owner, repository and number that the parts of a path name.
pub open spec fn pull_of_parts(parts: Seq<Seq<char>>) -> Option<(Seq<char>, Seq<char>, nat)> {
    if parts.len() == 4 && parts[0].len() > 0 && parts[1].len() > 0 && parts[2] == "pull"@ {
        match unsigned_value(parts[3], u64::MAX as nat) {
            Some(number) => Some((parts[0], parts[1], number)),
            None => None,
        }
    } else {
        None
    }
}

/// The owner, repository and number that a pull request's URL names.
pub open spec fn pull_of(url: Seq<char>) -> Option<(Seq<char>, Seq<char>, nat)> {
    match github_path(url) {
        Some(rest) => pull_of_parts(fields(without_trailing(rest, '/'), '/')),
        None => None,
    }
}

impl PullRef {
    /// Parse `https://github.com/{owner}/{repo}/pull/{number}`.
    pub fn parse(pr_url: &str) -> (r: Option<PullRef>)
        ensures
            match r {
                Some(p) => pull_of(pr_url@) == Some((p.owner@, p.repo@, p.number as nat)),
                None => pull_of(pr_url@) is None,
            },
    {
        let url: Vec<char> = chars_of(pr_url);
        let rest: &[char] = match strip_prefix(&url, &chars_of("https://github.com/")) {
            Some(rest) => rest,
            None => match strip_prefix(&url, &chars_of("http://github.com/")) {
                Some(rest) => rest,
                None => return None,
            },
        };
        let parts: Vec<&[char]> = split_on(strip_trailing(rest, '/'), '/');
        let ghost views = slice_views(parts@);
        if parts.len() != 4 {
            return None;
        }
        assert(views[0] == parts@[0]@ && views[1] == parts@[1]@ && views[2] == parts@[2]@
            && views[3] == parts@[3]@);
        if parts[0].len() == 0 || parts[1].len() == 0 {
            return None;
        }
        if !same_chars(parts[2], &chars_of("pull")) {
            return None;
        }
        match parse_unsigned(parts[3], u64::MAX) {
            Some(number) => Some(
                PullRef { owner: text_of(parts[0]), repo: text_of(parts[1]), number },
            ),
            None => None,
        }
    }

    /// The repository as "owner/name".
    pub fn full_repo(&self) -> (r: String)
        ensures
            r@ == self.owner@ + "/"@ + self.repo@,
    {
        let mut out: String = self.owner.clone();
        out.append("/");
        out.append(self.repo.as_str());
        out
    }
}

/// The URL of a pull request.
pub open spec fn pull_url(owner: Seq<char>, repo: Seq<char>, number: nat) -> Seq<char> {
    "https://github.com/"@ + (owner + seq!['/'] + (repo + seq!['/'] + ("pull"@ + seq!['/'] + decimal(
        number,
    ))))
}

proof fn lemma_digits_no_slash(number: nat)
    ensures
        !decimal(number).contains('/'),
        decimal(number).len() > 0,
        decimal(number).last() != '/',
{
    lemma_decimal_digits(number);
    let d = decimal(number);
    if d.contains('/') {
        let i = choose|i: int| 0 <= i < d.len() && d[i] == '/';
        assert(crate::decimal::is_digit(d[i]));
    }
    assert(crate::decimal::is_digit(d[d.len() - 1]));
}

/// A pull request's URL names that pull request.
pub proof fn pull_url_round_trip(owner: Seq<char>, repo: Seq<char>, number: nat)
    requires
        owner.len() > 0,
        repo.len() > 0,
        !owner.contains('/'),
        !repo.contains('/'),
        number <= u64::MAX,
    ensures
        pull_of(pull_url(owner, repo, number)) == Some((owner, repo, number)),
{
    reveal_strlit("pull");
    lemma_digits_no_slash(number);
    let last = decimal(number);
    let third = "pull"@ + seq!['/'] + last;
    let second = repo + seq!['/'] + third;
    let path = owner + seq!['/'] + second;
    let url = "https://github.com/"@ + path;
    let n = "https://github.com/"@.len() as int;
    assert(url.take(n) =~= "https://github.com/"@);
    assert(url.skip(n) =~= path);
    assert(path.last() == last.last());
    assert(without_trailing(path, '/') == path);
    assert(!"pull"@.contains('/'));
    lemma_fields_first(owner, '/', second);
    lemma_fields_first(repo, '/', third);
    lemma_fields_first("pull"@, '/', last);
    lemma_fields_one(last, '/');
    assert(fields(path, '/') =~= seq![owner, repo, "pull"@, last]);
    crate::decimal::numeral_round_trip(number, u64::MAX as nat);
}

/// A slash at the end of a URL does not matter.
pub proof fn trailing_slash_does_not_matter(url: Seq<char>)
    ensures
        pull_of(url.push('/')) == pull_of(url),
{
    reveal_strlit("https://github.com/");
    reveal_strlit("http://github.com/");
    let long = url.push('/');
    let https = "https://github.com/"@;
    let http = "http://github.com/"@;
    lemma_prefix_of_push(url, https);
    lemma_prefix_of_push(url, http);
    match github_path(url) {
        Some(rest) => {
            assert(github_path(long) == Some(rest.push('/'))) by {
                if starts(url, https) {
                } else {
                    assert(url[4] == url.take(http.len() as int)[4]);
                    if starts(long, https) {
                        assert(long[4] == long.take(https.len() as int)[4]);
                        assert(long[4] == url[4]);
                    }
                }
            }
            assert(rest.push('/').drop_last() =~= rest);
        },
        None => {
            if github_path(long) is Some {
                let rest = github_path(long)->0;
                assert(rest.len() == 0);
                assert(rest =~= Seq::<char>::empty());
                let none = Seq::<char>::empty();
                lemma_fields_one(none, '/');
                assert(without_trailing(none, '/') == none);
                assert(fields(none, '/').len() == 1);
            }
        },
    }
}

/// A longer text has the prefixes of the shorter one, and at most itself more.
proof fn lemma_prefix_of_push(url: Seq<char>, p: Seq<char>)
    ensures
        starts(url, p) ==> after_prefix(url.push('/'), p) == Some(url.skip(p.len() as int).push('/')),
        !starts(url, p) && starts(url.push('/'), p) ==> p.len() == url.len() + 1,
{
    let long = url.push('/');
    if starts(url, p) {
        assert(long.take(p.len() as int) =~= url.take(p.len() as int));
        assert(long.skip(p.len() as int) =~= url.skip(p.len() as int).push('/'));
    } else if starts(long, p) {
        if p.len() <= url.len() {
            assert(url.take(p.len() as int) =~= long.take(p.len() as int));
        }
    }
}

// --- what goes wrong -----------------------------------------------------------

/// Why a read of GitHub failed.
#[derive(Debug)]
pub enum GithubError {
    /// GitHub answered with a non-2xx status.
    Status {
        status: u16,
        rate_limited: bool,
        /// From `x-ratelimit-reset`, when present.
        reset_at: Option<Timestamp>,
    },
    /// Transport failure or undecodable body.
    Transport(String),
    /// No token could be obtained for the repository (App mint failed).
    Auth(String),
}

impl GithubError {
    /// The token cannot see the pull request.
    pub open spec fn not_visible(self) -> bool {
        match self {
            GithubError::Status { status, rate_limited, .. } => (status == 403 || status == 404)
                && !rate_limited,
            _ => false,
        }
    }

    /// GitHub limits the rate of requests, until this instant.
    pub open spec fn limited_until(self) -> Option<Option<Timestamp>> {
        match self {
            GithubError::Status { rate_limited, reset_at, .. } => if rate_limited {
                Some(reset_at)
            } else {
                None
            },
            _ => None,
        }
    }

    /// 403/404: the token cannot see the PR (or it is gone). Persistent
    /// occurrences move the session to `sync_error` rather than going stale.
    pub fn is_not_visible(&self) -> (r: bool)
        ensures
            r == self.not_visible(),
    {
        match self {
            GithubError::Status { status, rate_limited, .. } => (*status == 403 || *status == 404)
                && !*rate_limited,
            _ => false,
        }
    }

    /// When GitHub rate-limited the request: the instant from which it may be
    /// repeated, when GitHub gave one.
    pub fn rate_limit_reset(&self) -> (r: Option<Option<Timestamp>>)
        ensures
            r == self.limited_until(),
    {
        match self {
            GithubError::Status { rate_limited, reset_at, .. } => if *rate_limited {
                Some(*reset_at)
            } else {
                None
            },
            _ => None,
        }
    }

    /// What the error says.
    pub open spec fn text(self) -> Seq<char> {
        match self {
            GithubError::Status { status, rate_limited, .. } => if rate_limited {
                "github rate limited (http "@ + decimal(status as nat) + ")"@
            } else {
                "github returned http "@ + decimal(status as nat)
            },
            GithubError::Transport(error) => "github request failed: "@ + error@,
            GithubError::Auth(error) => "github credential unavailable: "@ + error@,
        }
    }

    /// What the error says.
    pub fn message(&self) -> (r: String)
        ensures
            r@ == self.text(),
    {
        match self {
            GithubError::Status { status, rate_limited, .. } => {
                if *rate_limited {
                    let mut out = "github rate limited (http ".to_owned();
                    push_chars(&mut out, &to_decimal(*status as u64));
                    out.append(")");
                    out
                } else {
                    let mut out = "github returned http ".to_owned();
                    push_chars(&mut out, &to_decimal(*status as u64));
                    out
                }
            },
            GithubError::Transport(error) => {
                let mut out = "github request failed: ".to_owned();
                out.append(error.as_str());
                out
            },
            GithubError::Auth(error) => {
                let mut out = "github credential unavailable: ".to_owned();
                out.append(error.as_str());
                out
            },
        }
    }
}

/// The headers of an answer that speak of rate limits.
#[derive(Debug)]
pub struct RateHeaders {
    /// `x-ratelimit-remaining`.
    pub remaining: Option<String>,
    /// `retry-after` is present.
    pub retry_after: bool,
    /// `x-ratelimit-reset`.
    pub reset: Option<String>,
}

/// No request remains.
pub open spec fn none_remaining(remaining: Option<String>) -> bool {
    match remaining {
        Some(v) => trimmed(v@) == "0"@,
        None => false,
    }
}

/// The answer is a rate limit, not a refusal.
pub open spec fn is_rate_limit(status: u16, headers: RateHeaders) -> bool {
    status == 429 || (status == 403 && (none_remaining(headers.remaining) || headers.retry_after))
}

/// The instant that a reset header names: seconds since the epoch.
pub open spec fn reset_instant(reset: Option<String>) -> Option<Timestamp> {
    match reset {
        Some(v) => match signed_value(trimmed(v@)) {
            Some(secs) => if FIRST_SECS <= secs <= LAST_SECS {
                Some(Timestamp { secs: secs as i64, nanos: 0 })
            } else {
                None
            },
            None => None,
        },
        None => None,
    }
}

/// The error for an answer with a non-2xx status.
pub fn status_error(status: u16, headers: &RateHeaders) -> (r: GithubError)
    ensures
        r == (GithubError::Status {
            status,
            rate_limited: is_rate_limit(status, *headers),
            reset_at: reset_instant(headers.reset),
        }),
{
    let remaining_zero: bool = match &headers.remaining {
        Some(value) => same_chars(trim(&chars_of(value.as_str())), &chars_of("0")),
        None => false,
    };
    let reset_at: Option<Timestamp> = match &headers.reset {
        Some(value) => match parse_signed(trim(&chars_of(value.as_str()))) {
            Some(secs) => Timestamp::at_secs(secs),
            None => None,
        },
        None => None,
    };
    let rate_limited: bool = status == 429 || (status == 403 && (remaining_zero
        || headers.retry_after));
    GithubError::Status { status, rate_limited, reset_at }
}

/// Judges an answer of GitHub by its status: it is an error exactly when the
/// status is not a 2xx.
pub fn check_status(status: u16, headers: &RateHeaders) -> (r: Result<(), GithubError>)
    ensures
        r == if 200 <= status <= 299 {
            Ok::<(), GithubError>(())
        } else {
            Err(
                GithubError::Status {
                    status,
                    rate_limited: is_rate_limit(status, *headers),
                    reset_at: reset_instant(headers.reset),
                },
            )
        },
{
    if 200 <= status && status <= 299 {
        Ok(())
    } else {
        Err(status_error(status, headers))
    }
}

/// An answer is never both a rate limit and a pull request out of sight, and
/// only a 429 or a 403 is a rate limit.
pub proof fn rate_limits_are_not_refusals(
    status: u16,
    headers: RateHeaders,
    reset_at: Option<Timestamp>,
)
    ensures
        ({
            let error = GithubError::Status {
                status,
                rate_limited: is_rate_limit(status, headers),
                reset_at,
            };
            &&& !(error.not_visible() && error.limited_until() is Some)
            &&& error.limited_until() is Some ==> status == 429 || status == 403
        }),
{
}

/// A 404 means out of sight, whatever its headers say.
pub proof fn missing_is_not_visible(headers: RateHeaders, reset_at: Option<Timestamp>)
    ensures
        (GithubError::Status {
            status: 404,
            rate_limited: is_rate_limit(404, headers),
            reset_at,
        }).not_visible(),
{
}

// --- addresses -----------------------------------------------------------

/// The path of a pull request.
pub open spec fn pull_path_of(pr: PullRef) -> Seq<char> {
    "/repos/"@ + pr.owner@ + "/"@ + pr.repo@ + "/pulls/"@ + decimal(pr.number as nat)
}

/// The path of a pull request.
pub fn pull_path(pr: &PullRef) -> (r: String)
    ensures
        r@ == pull_path_of(*pr),
{
    let mut out = "/repos/".to_owned();
    out.append(pr.owner.as_str());
    out.append("/");
    out.append(pr.repo.as_str());
    out.append("/pulls/");
    push_chars(&mut out, &to_decimal(pr.number));
    out
}

/// The path of a pull request's reviews.
pub fn reviews_path(pr: &PullRef) -> (r: String)
    ensures
        r@ == pull_path_of(*pr) + "/reviews?per_page=100"@,
{
    let mut out: String = pull_path(pr);
    out.append("/reviews?per_page=100");
    out
}

/// The path of a pull request's inline comments.
pub fn comments_path(pr: &PullRef) -> (r: String)
    ensures
        r@ == pull_path_of(*pr) + "/comments?per_page=100"@,
{
    let mut out: String = pull_path(pr);
    out.append("/comments?per_page=100");
    out
}

/// The path of a commit's check runs.
pub fn check_runs_path(pr: &PullRef, sha: &str) -> (r: String)
    ensures
        r@ == "/repos/"@ + pr.owner@ + "/"@ + pr.repo@ + "/commits/"@ + sha@
            + "/check-runs?per_page=100"@,
{
    let mut out = "/repos/".to_owned();
    out.append(pr.owner.as_str());
    out.append("/");
    out.append(pr.repo.as_str());
    out.append("/commits/");
    out.append(sha);
    out.append("/check-runs?per_page=100");
    out
}

/// Read-only GitHub REST client for pull requests, used by the PR poller and
/// the follow-up endpoint. Authenticates every call through its
/// [`GithubAuth`], so callers work the same with an App or a PAT.
pub struct GitHubApi {
    api_base: String,
    auth: GithubAuth,
}

impl GitHubApi {
    /// The address of GitHub's API.
    pub closed spec fn base(&self) -> Seq<char> {
        self.api_base@
    }

    /// How calls are authenticated.
    pub closed spec fn credential(&self) -> GithubAuth {
        self.auth
    }

    /// A client for the API at this address.
    pub fn new(api_base: String, auth: GithubAuth) -> (r: GitHubApi)
        ensures
            r.base() == api_base@,
            r.credential() == auth,
    {
        GitHubApi { api_base, auth }
    }

    /// The address of GitHub's API.
    pub fn api_base(&self) -> (r: &str)
        ensures
            r@ == self.base(),
    {
        self.api_base.as_str()
    }

    /// How calls are authenticated.
    pub fn auth(&self) -> (r: &GithubAuth)
        ensures
            *r == self.credential(),
    {
        &self.auth
    }

    /// The address of something on GitHub.
    pub fn url(&self, path: &str) -> (r: String)
        ensures
            r@ == self.base() + path@,
    {
        let mut out: String = self.api_base.clone();
        out.append(path);
        out
    }
}

// --- what is read -----------------------------------------------------------

/// A pull request as GitHub gives it.
#[derive(Debug)]
pub struct RawPull {
    pub state: String,
    pub merged: bool,
    pub head: GitRef,
    pub html_url: String,
}

/// The fields of a pull request the server cares about.
#[derive(Debug, Clone, PartialEq, Eq)]
pub struct PullSnapshot {
    pub html_url: String,
    /// GitHub `state`: "open" | "closed" (merged PRs are closed + merged).
    pub closed: bool,
    pub merged: bool,
    pub head_ref: String,
    pub head_sha: String,
}

/// The fields of a pull request the server cares about.
pub fn pull_snapshot(raw: RawPull) -> (r: PullSnapshot)
    ensures
        r.html_url == raw.html_url,
        r.closed == (raw.state@ != "open"@),
        r.merged == raw.merged,
        r.head_ref == raw.head.name,
        r.head_sha == raw.head.sha,
{
    PullSnapshot {
        html_url: raw.html_url,
        closed: !same_text(raw.state.as_str(), "open"),
        merged: raw.merged,
        head_ref: raw.head.name,
        head_sha: raw.head.sha,
    }
}

/// A review as GitHub gives it.
#[derive(Debug)]
pub struct RawReview {
    pub user: Option<GitHubUser>,
    pub state: String,
    pub body: Option<String>,
    pub submitted_at: Option<Timestamp>,
    pub commit_id: Option<String>,
}

/// What the tracking reducer needs of a review; `V` is the verdict's type.
#[derive(Debug)]
pub struct ReviewObservation<V> {
    pub reviewer: String,
    pub verdict: V,
    pub submitted_at: Timestamp,
    pub commit_sha: Option<String>,
}

/// What the tracking reducer needs of a review: nothing of one that has no
/// author, no verdict or is not submitted.
pub open spec fn observed<V>(raw: RawReview, verdict: Option<V>) -> Option<ReviewObservation<V>> {
    match (raw.user, verdict, raw.submitted_at) {
        (Some(user), Some(verdict), Some(submitted_at)) => Some(
            ReviewObservation {
                reviewer: user.login,
                verdict,
                submitted_at,
                commit_sha: raw.commit_id,
            },
        ),
        _ => None,
    }
}

/// What the tracking reducer needs of some reviews, in their order.
pub open spec fn all_observed<V>(raw: Seq<(RawReview, Option<V>)>) -> Seq<ReviewObservation<V>>
    decreases raw.len(),
{
    if raw.len() == 0 {
        Seq::empty()
    } else {
        let front = all_observed(raw.drop_last());
        match observed(raw.last().0, raw.last().1) {
            Some(o) => front.push(o),
            None => front,
        }
    }
}

/// Reviews reduced to what the tracking reducer needs; each comes with the
/// verdict that its state stands for, when it stands for one.
pub fn reviews<V>(raw: Vec<(RawReview, Option<V>)>) -> (r: Vec<ReviewObservation<V>>)
    ensures
        r@ == all_observed(raw@),
{
    let ghost all = raw@;
    let mut out: Vec<ReviewObservation<V>> = Vec::new();
    assert(all.take(0) =~= Seq::empty());
    for pair in it: raw
        invariant
            it.seq() == all,
            out@ == all_observed(all.take(it.index() as int)),
    {
        proof {
            let i = it.index() as int;
            assert(all.take(i + 1).drop_last() =~= all.take(i));
            assert(all.take(i + 1).last() == pair);
        }
        let (review, verdict) = pair;
        match (review.user, verdict, review.submitted_at) {
            (Some(user), Some(verdict), Some(submitted_at)) => {
                out.push(
                    ReviewObservation {
                        reviewer: user.login,
                        verdict,
                        submitted_at,
                        commit_sha: review.commit_id,
                    },
                );
            },
            _ => {},
        }
    }
    assert(all.take(all.len() as int) =~= all);
    out
}

/// A review's top-level summary (the text entered when submitting a review).
#[derive(Debug, Clone, PartialEq, Eq)]
pub struct ReviewSummary {
    pub reviewer: String,
    pub state: String,
    pub body: String,
}

/// A summary as a mathematical value.
pub struct SummaryView {
    pub reviewer: Seq<char>,
    pub state: Seq<char>,
    pub body: Seq<char>,
}

impl View for ReviewSummary {
    type V = SummaryView;

    open spec fn view(&self) -> SummaryView {
        SummaryView { reviewer: self.reviewer@, state: self.state@, body: self.body@ }
    }
}

/// The login of an optional user, empty when there is none.
pub open spec fn login_or_empty(user: Option<GitHubUser>) -> Seq<char> {
    match user {
        Some(u) => u.login@,
        None => Seq::empty(),
    }
}

/// The summary of a review, when its body says something.
pub open spec fn summary_of(raw: RawReview) -> Option<SummaryView> {
    match raw.body {
        Some(body) => if trimmed(body@).len() > 0 {
            Some(
                SummaryView {
                    reviewer: login_or_empty(raw.user),
                    state: lowered(raw.state@),
                    body: trimmed(body@),
                },
            )
        } else {
            None
        },
        None => None,
    }
}

/// The summaries of some reviews, in their order.
pub open spec fn summaries_of(raw: Seq<RawReview>) -> Seq<SummaryView>
    decreases raw.len(),
{
    if raw.len() == 0 {
        Seq::empty()
    } else {
        match summary_of(raw.last()) {
            Some(s) => summaries_of(raw.drop_last()).push(s),
            None => summaries_of(raw.drop_last()),
        }
    }
}

/// The views of summaries.
pub open spec fn summary_views(s: Seq<ReviewSummary>) -> Seq<SummaryView> {
    Seq::new(s.len(), |i: int| s[i]@)
}

/// The login of an optional user, empty when there is none.
fn login_text(user: Option<GitHubUser>) -> (r: String)
    ensures
        r@ == login_or_empty(user),
{
    match user {
        Some(u) => u.login,
        None => String::new(),
    }
}

/// Review summaries with a non-empty body, oldest first.
pub fn review_summaries(raw: Vec<RawReview>) -> (r: Vec<ReviewSummary>)
    ensures
        summary_views(r@) == summaries_of(raw@),
{
    let ghost all = raw@;
    let mut out: Vec<ReviewSummary> = Vec::new();
    proof {
        assert(all.take(0) =~= Seq::empty());
        assert(summary_views(out@) =~= Seq::empty());
    }
    for review in it: raw
        invariant
            it.seq() == all,
            summary_views(out@) == summaries_of(all.take(it.index() as int)),
    {
        proof {
            let i = it.index() as int;
            assert(all.take(i + 1).drop_last() =~= all.take(i));
            assert(all.take(i + 1).last() == review);
        }
        let ghost before = summary_views(out@);
        match review.body {
            Some(body) => {
                let chars: Vec<char> = chars_of(body.as_str());
                let text: &[char] = trim(&chars);
                if text.len() > 0 {
                    let summary = ReviewSummary {
                        reviewer: login_text(review.user),
                        state: text_of(&to_lower(&chars_of(review.state.as_str()))),
                        body: text_of(text),
                    };
                    out.push(summary);
                    assert(summary_views(out@) =~= before.push(summary@));
                }
            },
            None => {},
        }
    }
    assert(all.take(all.len() as int) =~= all);
    out
}

/// An inline review comment as GitHub gives it.
#[derive(Debug)]
pub struct RawReviewComment {
    pub id: u64,
    pub in_reply_to_id: Option<u64>,
    pub user: Option<GitHubUser>,
    pub path: String,
    pub line: Option<u64>,
    pub original_line: Option<u64>,
    pub body: String,
    pub created_at: Timestamp,
}

/// An inline review comment with its file/line context.
#[derive(Debug, Clone, PartialEq, Eq)]
pub struct ReviewComment {
    pub id: u64,
    pub in_reply_to_id: Option<u64>,
    pub reviewer: String,
    pub path: String,
    pub line: Option<u64>,
    pub body: String,
    pub created_at: Timestamp,
}

/// A comment as a mathematical value.
pub struct CommentView {
    pub id: u64,
    pub in_reply_to_id: Option<u64>,
    pub reviewer: Seq<char>,
    pub path: Seq<char>,
    pub line: Option<u64>,
    pub body: Seq<char>,
    pub created_at: Timestamp,
}

impl View for ReviewComment {
    type V = CommentView;

    open spec fn view(&self) -> CommentView {
        CommentView {
            id: self.id,
            in_reply_to_id: self.in_reply_to_id,
            reviewer: self.reviewer@,
            path: self.path@,
            line: self.line,
            body: self.body@,
            created_at: self.created_at,
        }
    }
}

/// The comment that GitHub gives: on its line, or the line it was made on
/// before the change moved.
pub open spec fn comment_of(raw: RawReviewComment) -> CommentView {
    CommentView {
        id: raw.id,
        in_reply_to_id: raw.in_reply_to_id,
        reviewer: login_or_empty(raw.user),
        path: raw.path@,
        line: match raw.line {
            Some(line) => Some(line),
            None => raw.original_line,
        },
        body: raw.body@,
        created_at: raw.created_at,
    }
}

/// `a` is not later than `b`: by the instant, then by the id.
pub open spec fn not_later(a: CommentView, b: CommentView) -> bool {
    if a.created_at.secs != b.created_at.secs {
        a.created_at.secs < b.created_at.secs
    } else if a.created_at.nanos != b.created_at.nanos {
        a.created_at.nanos < b.created_at.nanos
    } else {
        a.id <= b.id
    }
}

/// Position of the first comment that is later than `c`, or the length.
pub open spec fn place_of(sorted: Seq<CommentView>, c: CommentView) -> int
    decreases sorted.len(),
{
    if sorted.len() == 0 {
        0
    } else if not_later(sorted.last(), c) {
        sorted.len() as int
    } else {
        place_of(sorted.drop_last(), c)
    }
}

/// The comments oldest first; of two with the same instant and id, the one
/// that came first stays first.
pub open spec fn oldest_first(cs: Seq<CommentView>) -> Seq<CommentView>
    decreases cs.len(),
{
    if cs.len() == 0 {
        Seq::empty()
    } else {
        let front = oldest_first(cs.drop_last());
        front.insert(place_of(front, cs.last()), cs.last())
    }
}

/// The comments that GitHub gives.
pub open spec fn comments_of(raw: Seq<RawReviewComment>) -> Seq<CommentView> {
    Seq::new(raw.len(), |i: int| comment_of(raw[i]))
}

/// The views of comments.
pub open spec fn comment_views(cs: Seq<ReviewComment>) -> Seq<CommentView> {
    Seq::new(cs.len(), |i: int| cs[i]@)
}

proof fn lemma_place_of(sorted: Seq<CommentView>, c: CommentView)
    ensures
        0 <= place_of(sorted, c) <= sorted.len(),
        forall|j: int|
            place_of(sorted, c) <= j < sorted.len() ==> !not_later(#[trigger] sorted[j], c),
        place_of(sorted, c) > 0 ==> not_later(sorted[place_of(sorted, c) - 1], c),
    decreases sorted.len(),
{
    if sorted.len() > 0 && !not_later(sorted.last(), c) {
        let front = sorted.drop_last();
        lemma_place_of(front, c);
        assert forall|j: int| place_of(sorted, c) <= j < sorted.len() implies !not_later(
            #[trigger] sorted[j],
            c,
        ) by {
            if j < front.len() {
                assert(front[j] == sorted[j]);
            }
        }
    }
}

/// Where `c` belongs among sorted comments.
fn find_place(sorted: &Vec<ReviewComment>, c: &ReviewComment) -> (r: usize)
    ensures
        r as int == place_of(comment_views(sorted@), c@),
        r <= sorted@.len(),
{
    let ghost views = comment_views(sorted@);
    let mut i: usize = sorted.len();
    assert(views.take(i as int) =~= views);
    while i > 0
        invariant
            i <= sorted@.len(),
            views == comment_views(sorted@),
            place_of(views.take(i as int), c@) == place_of(views, c@),
        decreases i,
    {
        let last: &ReviewComment = &sorted[i - 1];
        proof {
            assert(views.take(i as int).last() == last@);
            assert(views.take(i as int).drop_last() =~= views.take(i - 1));
        }
        let earlier: bool = if last.created_at.secs != c.created_at.secs {
            last.created_at.secs < c.created_at.secs
        } else if last.created_at.nanos != c.created_at.nanos {
            last.created_at.nanos < c.created_at.nanos
        } else {
            last.id <= c.id
        };
        if earlier {
            return i;
        }
        i -= 1;
    }
    assert(views.take(0) =~= Seq::empty());
    0
}

/// Inline review comments, oldest first.
pub fn review_comments(raw: Vec<RawReviewComment>) -> (r: Vec<ReviewComment>)
    ensures
        comment_views(r@) == oldest_first(comments_of(raw@)),
{
    let ghost all = comments_of(raw@);
    let ghost given = raw@;
    let mut out: Vec<ReviewComment> = Vec::new();
    proof {
        assert(all.take(0) =~= Seq::empty());
        assert(comment_views(out@) =~= Seq::empty());
    }
    for c in it: raw
        invariant
            it.seq() == given,
            all == comments_of(given),
            comment_views(out@) == oldest_first(all.take(it.index() as int)),
    {
        let ghost i = it.index() as int;
        let ghost before = comment_views(out@);
        proof {
            assert(all.take(i + 1).drop_last() =~= all.take(i));
            assert(all.take(i + 1).last() == comment_of(c));
        }
        let line: Option<u64> = match c.line {
            Some(line) => Some(line),
            None => c.original_line,
        };
        let comment = ReviewComment {
            id: c.id,
            in_reply_to_id: c.in_reply_to_id,
            reviewer: login_text(c.user),
            path: c.path,
            line,
            body: c.body,
            created_at: c.created_at,
        };
        let place: usize = find_place(&out, &comment);
        out.insert(place, comment);
        proof {
            assert(comment@ == comment_of(c));
            assert(comment_views(out@) =~= before.insert(place as int, comment@));
        }
    }
    assert(all.take(all.len() as int) =~= all);
    out
}

/// Ordering loses no comment and invents none, and puts none before an
/// earlier one.
pub proof fn ordering_is_a_sorted_rearrangement(cs: Seq<CommentView>)
    ensures
        oldest_first(cs).to_multiset() =~= cs.to_multiset(),
        forall|i: int, j: int|
            0 <= i < j < oldest_first(cs).len() ==> not_later(
                #[trigger] oldest_first(cs)[i],
                #[trigger] oldest_first(cs)[j],
            ),
    decreases cs.len(),
{
    broadcast use vstd::seq_lib::group_to_multiset_ensures;

    if cs.len() > 0 {
        let front = oldest_first(cs.drop_last());
        let c = cs.last();
        ordering_is_a_sorted_rearrangement(cs.drop_last());
        lemma_place_of(front, c);
        let p = place_of(front, c);
        let all = oldest_first(cs);
        assert(cs =~= cs.drop_last().push(c));
        assert(all[p] == c);
        assert(all.remove(p) =~= front);
        vstd::seq_lib::to_multiset_remove(all, p);
        assert(all.contains(c));
        assert forall|i: int, j: int| 0 <= i < j < all.len() implies not_later(
            #[trigger] all[i],
            #[trigger] all[j],
        ) by {
            let a = if i < p {
                i
            } else {
                i - 1
            };
            let b = if j < p {
                j
            } else {
                j - 1
            };
            if i == p {
                assert(!not_later(front[b], c));
            } else if j == p {
                assert(not_later(front[p - 1], c));
                if a < p - 1 {
                    assert(not_later(front[a], front[p - 1]));
                }
            } else {
                assert(not_later(front[a], front[b]));
            }
        }
    }
}

/// One check run, as the tracking reducer needs it.
#[derive(Debug)]
pub struct CheckRunObservation {
    pub name: String,
    pub status: String,
    pub conclusion: Option<String>,
}

/// One full observation of a pull request.
#[derive(Debug)]
pub struct PrObservation<V> {
    pub merged: bool,
    pub closed: bool,
    pub head_sha: String,
    pub reviews: Vec<ReviewObservation<V>>,
    pub check_runs: Vec<CheckRunObservation>,
}

/// One full observation of the PR: pull, reviews and head check runs.
pub fn observe<V>(
    pull: &PullSnapshot,
    reviews: Vec<ReviewObservation<V>>,
    check_runs: Vec<CheckRunObservation>,
) -> (r: PrObservation<V>)
    ensures
        r.merged == pull.merged,
        r.closed == pull.closed,
        r.head_sha@ == pull.head_sha@,
        r.reviews == reviews,
        r.check_runs == check_runs,
{
    PrObservation {
        merged: pull.merged,
        closed: pull.closed,
        head_sha: pull.head_sha.clone(),
        reviews,
        check_runs,
    }
}

// --- what is observed -----------------------------------------------------------

/// The reviews that the tracking reducer can use: those with an author, a
/// verdict and a time.
pub open spec fn usable<V>(raw: Seq<(RawReview, Option<V>)>) -> Seq<(RawReview, Option<V>)> {
    raw.filter(
        |pair: (RawReview, Option<V>)|
            pair.0.user is Some && pair.1 is Some && pair.0.submitted_at is Some,
    )
}

proof fn lemma_all_observed<V>(raw: Seq<(RawReview, Option<V>)>)
    ensures
        all_observed(raw).len() == usable(raw).len(),
        forall|i: int|
            0 <= i < usable(raw).len() ==> #[trigger] all_observed(raw)[i] == (ReviewObservation {
                reviewer: usable(raw)[i].0.user->0.login,
                verdict: usable(raw)[i].1->0,
                submitted_at: usable(raw)[i].0.submitted_at->0,
                commit_sha: usable(raw)[i].0.commit_id,
            }),
    decreases raw.len(),
{
    reveal(Seq::filter);
    if raw.len() > 0 {
        let front = raw.drop_last();
        lemma_all_observed(front);
        let last = raw.last();
        if last.0.user is Some && last.1 is Some && last.0.submitted_at is Some {
            assert(usable(raw) =~= usable(front).push(last));
        } else {
            assert(usable(raw) =~= usable(front));
        }
        assert forall|i: int| 0 <= i < usable(raw).len() implies #[trigger] all_observed(raw)[i]
            == (ReviewObservation {
            reviewer: usable(raw)[i].0.user->0.login,
            verdict: usable(raw)[i].1->0,
            submitted_at: usable(raw)[i].0.submitted_at->0,
            commit_sha: usable(raw)[i].0.commit_id,
        }) by {
            if i < usable(front).len() {
                assert(all_observed(raw)[i] == all_observed(front)[i]);
                assert(usable(raw)[i] == usable(front)[i]);
            }
        }
    }
}

/// No usable review is lost: there is one observation for each, in their
/// order, which holds its author, verdict, time and commit.
pub proof fn every_usable_review_is_observed<V>(
    raw: Vec<(RawReview, Option<V>)>,
    r: Vec<ReviewObservation<V>>,
    i: int,
)
    requires
        call_ensures(reviews::<V>, (raw,), r),
    ensures
        r@.len() == usable(raw@).len(),
        0 <= i < r@.len() ==> {
            let (review, verdict) = usable(raw@)[i];
            &&& r@[i].reviewer == review.user->0.login
            &&& Some(r@[i].verdict) == verdict
            &&& Some(r@[i].submitted_at) == review.submitted_at
            &&& r@[i].commit_sha == review.commit_id
        },
        forall|k: int|
            0 <= k < raw@.len() && (#[trigger] raw@[k]).0.user is Some && raw@[k].1 is Some
                && raw@[k].0.submitted_at is Some ==> usable(raw@).contains(raw@[k]),
{
    lemma_all_observed(raw@);
    if 0 <= i < r@.len() {
        assert(r@[i] == all_observed(raw@)[i]);
        lemma_usable(raw@, i);
    }
    assert forall|k: int|
        0 <= k < raw@.len() && (#[trigger] raw@[k]).0.user is Some && raw@[k].1 is Some
            && raw@[k].0.submitted_at is Some implies usable(raw@).contains(raw@[k]) by {
        lemma_usable_keeps(raw@, k);
    }
}

proof fn lemma_usable<V>(raw: Seq<(RawReview, Option<V>)>, i: int)
    requires
        0 <= i < usable(raw).len(),
    ensures
        usable(raw)[i].0.user is Some,
        usable(raw)[i].1 is Some,
        usable(raw)[i].0.submitted_at is Some,
    decreases raw.len(),
{
    reveal(Seq::filter);
    if raw.len() > 0 {
        let front = usable(raw.drop_last());
        if i < front.len() {
            lemma_usable(raw.drop_last(), i);
            assert(usable(raw)[i] == front[i]);
        }
    }
}

proof fn lemma_usable_keeps<V>(raw: Seq<(RawReview, Option<V>)>, k: int)
    requires
        0 <= k < raw.len(),
        raw[k].0.user is Some,
        raw[k].1 is Some,
        raw[k].0.submitted_at is Some,
    ensures
        usable(raw).contains(raw[k]),
    decreases raw.len(),
{
    reveal(Seq::filter);
    let front = usable(raw.drop_last());
    if k == raw.len() - 1 {
        assert(usable(raw)[front.len() as int] == raw[k]);
    } else {
        lemma_usable_keeps(raw.drop_last(), k);
        let j = choose|j: int| 0 <= j < front.len() && front[j] == raw.drop_last()[k];
        assert(usable(raw)[j] == raw[k]);
    }
}

/// The reviews whose body says something.
pub open spec fn speaking(raw: Seq<RawReview>) -> Seq<RawReview> {
    raw.filter(|review: RawReview| review.body is Some && trimmed(review.body->0@).len() > 0)
}

/// The summary that a review comes to.
pub open spec fn speaks_as(review: RawReview, summary: SummaryView) -> bool {
    &&& summary.reviewer == match review.user {
        Some(u) => u.login@,
        None => Seq::empty(),
    }
    &&& summary.state == lowered(review.state@)
    &&& summary.body == trimmed(review.body->0@)
}

/// Every review that says something has its summary, in their order: who wrote
/// it, its state in lower case and what it says.
pub proof fn every_speaking_review_is_summarized(
    raw: Vec<RawReview>,
    r: Vec<ReviewSummary>,
    i: int,
)
    requires
        call_ensures(review_summaries, (raw,), r),
    ensures
        r@.len() == speaking(raw@).len(),
        0 <= i < r@.len() ==> speaks_as(speaking(raw@)[i], r@[i]@),
{
    lemma_summaries(raw@);
    let views = summary_views(r@);
    if 0 <= i < r@.len() {
        assert(views[i] == r@[i]@);
        assert(speaks_as(speaking(raw@)[i], summaries_of(raw@)[i]));
    }
}

proof fn lemma_summaries(raw: Seq<RawReview>)
    ensures
        summaries_of(raw).len() == speaking(raw).len(),
        forall|i: int|
            0 <= i < speaking(raw).len() ==> #[trigger] speaks_as(
                speaking(raw)[i],
                summaries_of(raw)[i],
            ),
    decreases raw.len(),
{
    reveal(Seq::filter);
    if raw.len() > 0 {
        let front = raw.drop_last();
        lemma_summaries(front);
        let last = raw.last();
        if last.body is Some && trimmed(last.body->0@).len() > 0 {
            assert(speaking(raw) =~= speaking(front).push(last));
        } else {
            assert(speaking(raw) =~= speaking(front));
        }
        assert forall|i: int| 0 <= i < speaking(raw).len() implies #[trigger] speaks_as(
            speaking(raw)[i],
            summaries_of(raw)[i],
        ) by {
            if i < speaking(front).len() {
                assert(speaks_as(speaking(front)[i], summaries_of(front)[i]));
                assert(speaking(raw)[i] == speaking(front)[i]);
                assert(summaries_of(raw)[i] == summaries_of(front)[i]);
            }
        }
    }
}

/// The comments are those that GitHub gave, each on its line or the line that
/// it was made on, the earlier before the later.
#[verifier::spinoff_prover]
#[verifier::rlimit(40)]
pub proof fn comments_come_oldest_first(
    raw: Vec<RawReviewComment>,
    r: Vec<ReviewComment>,
    i: int,
    j: int,
)
    requires
        call_ensures(review_comments, (raw,), r),
    ensures
        comment_views(r@).to_multiset() =~= Seq::new(
            raw@.len(),
            |k: int|
                CommentView {
                    id: raw@[k].id,
                    in_reply_to_id: raw@[k].in_reply_to_id,
                    reviewer: match raw@[k].user {
                        Some(u) => u.login@,
                        None => Seq::empty(),
                    },
                    path: raw@[k].path@,
                    line: if raw@[k].line is Some {
                        raw@[k].line
                    } else {
                        raw@[k].original_line
                    },
                    body: raw@[k].body@,
                    created_at: raw@[k].created_at,
                },
        ).to_multiset(),
        0 <= i < j < r@.len() ==> {
            let a = r@[i];
            let b = r@[j];
            ||| a.created_at.secs < b.created_at.secs
            ||| a.created_at.secs == b.created_at.secs && a.created_at.nanos < b.created_at.nanos
            ||| a.created_at == b.created_at && a.id <= b.id
        },
{
    let cs = comments_of(raw@);
    ordering_is_a_sorted_rearrangement(cs);
    assert(cs =~= Seq::new(
        raw@.len(),
        |k: int|
            CommentView {
                id: raw@[k].id,
                in_reply_to_id: raw@[k].in_reply_to_id,
                reviewer: match raw@[k].user {
                    Some(u) => u.login@,
                    None => Seq::empty(),
                },
                path: raw@[k].path@,
                line: if raw@[k].line is Some {
                    raw@[k].line
                } else {
                    raw@[k].original_line
                },
                body: raw@[k].body@,
                created_at: raw@[k].created_at,
            },
    ));
    if 0 <= i < j < r@.len() {
        let views = comment_views(r@);
        assert(views[i] == r@[i]@ && views[j] == r@[j]@);
        assert(not_later(views[i], views[j]));
    }
}

/// An observation holds the pull request as it was read: anything but open is
/// closed.
pub proof fn observations_hold_what_was_read<V>(
    raw: RawPull,
    pull: PullSnapshot,
    reviews: Vec<ReviewObservation<V>>,
    check_runs: Vec<CheckRunObservation>,
    r: PrObservation<V>,
)
    requires
        call_ensures(pull_snapshot, (raw,), pull),
        call_ensures(observe::<V>, (&pull, reviews, check_runs), r),
    ensures
        pull.closed <==> raw.state@ != "open"@,
        pull.merged == raw.merged,
        pull.html_url@ == raw.html_url@,
        pull.head_ref@ == raw.head.name@,
        pull.head_sha@ == raw.head.sha@,
        r.merged == raw.merged,
        r.closed <==> raw.state@ != "open"@,
        r.head_sha@ == raw.head.sha@,
        r.reviews@ == reviews@,
        r.check_runs@ == check_runs@,
{
}

// --- what an answer means -----------------------------------------------------------

/// An answer is an error exactly when its status is not a 2xx. A 429 is a rate
/// limit, and so is a 403 that leaves no requests or names a delay; any other
/// 403, and a 404, means that the pull request cannot be seen. The reset is
/// the instant that its header names.
pub proof fn answers_are_judged_by_their_status(
    status: u16,
    headers: &RateHeaders,
    r: Result<(), GithubError>,
    secs: i64,
)
    requires
        call_ensures(check_status, (status, headers), r),
    ensures
        r is Ok <==> 200 <= status <= 299,
        r matches Err(error) ==> {
            let limited = status == 429 || (status == 403 && (headers.retry_after || (
            headers.remaining is Some && trimmed(headers.remaining->0@) == "0"@)));
            &&& error matches GithubError::Status { status: s, rate_limited, reset_at }
            &&& s == status
            &&& rate_limited == limited
            &&& error.limited_until() == if limited {
                Some(reset_at)
            } else {
                None
            }
            &&& error.not_visible() <==> !limited && (status == 403 || status == 404)
            &&& headers.reset is None ==> reset_at is None
            &&& headers.reset is Some && trimmed(headers.reset->0@) == decimal_int(secs as int)
                && FIRST_SECS <= secs <= LAST_SECS ==> reset_at == Some(
                Timestamp { secs, nanos: 0 },
            )
        },
{
    signed_numeral_round_trip(secs);
}

/// Failures other than an answer are neither a rate limit nor a pull request
/// that cannot be seen.
pub proof fn other_failures_are_retried(
    error: &GithubError,
    not_visible: bool,
    reset: Option<Option<Timestamp>>,
)
    requires
        call_ensures(GithubError::is_not_visible, (error,), not_visible),
        call_ensures(GithubError::rate_limit_reset, (error,), reset),
        !(*error is Status),
    ensures
        !not_visible,
        reset is None,
{
}

/// What an error says names its cause.
pub proof fn errors_name_their_cause(error: &GithubError, message: String)
    requires
        call_ensures(GithubError::message, (error,), message),
    ensures
        match *error {
            GithubError::Status { status, rate_limited, .. } => message@ == if rate_limited {
                "github rate limited (http "@ + decimal(status as nat) + ")"@
            } else {
                "github returned http "@ + decimal(status as nat)
            },
            GithubError::Transport(cause) => message@ == "github request failed: "@ + cause@,
            GithubError::Auth(cause) => message@ == "github credential unavailable: "@ + cause@,
        },
{
}

// --- who asks, and for what -----------------------------------------------------------

/// A kept token is used for its own repository and while more than five
/// minutes of it are left; a PAT is used as it is for every repository.
pub proof fn tokens_are_used_while_they_last(
    auth: &GithubAuth,
    repo: &str,
    kept: &ReadTokens,
    now: &Timestamp,
    r: Option<String>,
)
    requires
        call_ensures(GithubAuth::token_for, (auth, repo, kept, now), r),
    ensures
        auth matches GithubAuth::Pat(pat) ==> (r matches Some(t) && t@ == pat@),
        auth is App ==> {
            let fresh = kept@.contains_key(repo@) && kept@[repo@].expires_at.secs * 1_000_000_000
                + kept@[repo@].expires_at.nanos > now.secs * 1_000_000_000 + now.nanos + 300
                * 1_000_000_000;
            &&& r is Some <==> fresh
            &&& r matches Some(t) ==> t@ == kept@[repo@].token@
        },
{
}

/// The App takes precedence over a PAT, and without either there is nothing.
pub proof fn the_app_comes_first(
    app: Option<GitHubAppClient>,
    pat: Option<String>,
    r: Option<GithubAuth>,
)
    requires
        call_ensures(GithubAuth::select, (app, pat), r),
    ensures
        app is Some ==> r == Some(GithubAuth::App(app->0)),
        app is None && pat is Some ==> r == Some(GithubAuth::Pat(pat->0)),
        app is None && pat is None ==> r is None,
{
}

/// The App's token was issued a minute ago and lasts nine minutes, and names
/// the App.
pub proof fn app_tokens_are_short_lived(client: &GitHubAppClient, now: i64, claims: AppClaims)
    requires
        call_ensures(GitHubAppClient::app_claims, (client, now), claims),
        FIRST_SECS <= now <= LAST_SECS,
    ensures
        claims.iat == now - 60,
        claims.exp == now + 540,
        claims.exp - claims.iat == 600,
        claims.iss@ == decimal(client.id() as nat),
{
}

/// A token is asked for the one repository that it is for, by the name behind
/// its owner; a text without an owner is no repository.
pub proof fn tokens_are_scoped_to_one_repository(
    repo: &str,
    r: Result<Json, String>,
    owner: Seq<char>,
    name: Seq<char>,
)
    requires
        call_ensures(token_request, (repo,), r),
    ensures
        repo@ == owner + seq!['/'] + name && !owner.contains('/') ==> (r matches Ok(body) && body@
            == JsonView::Object(
            seq![("repositories"@, JsonView::Array(seq![JsonView::Text(name)]))],
        )),
        !repo@.contains('/') ==> r is Err,
{
    if repo@ == owner + seq!['/'] + name && !owner.contains('/') {
        lemma_split_pair(owner, '/', name);
    }
    cutting_at_the_first(repo@, '/');
    if !repo@.contains('/') {
        if let Some((a, b)) = split_pair(repo@, '/') {
            assert((a + seq!['/'] + b)[a.len() as int] == '/');
        }
    }
}

/// Reads go to the addresses of the pull request and of its head commit.
pub proof fn reads_name_the_pull_request(
    pr: &PullRef,
    sha: &str,
    pull: String,
    reviews: String,
    comments: String,
    runs: String,
    repo: String,
)
    requires
        call_ensures(pull_path, (pr,), pull),
        call_ensures(reviews_path, (pr,), reviews),
        call_ensures(comments_path, (pr,), comments),
        call_ensures(check_runs_path, (pr, sha), runs),
        call_ensures(PullRef::full_repo, (pr,), repo),
    ensures
        repo@ == pr.owner@ + "/"@ + pr.repo@,
        pull@ == "/repos/"@ + pr.owner@ + "/"@ + pr.repo@ + "/pulls/"@ + decimal(pr.number as nat),
        reviews@ == pull@ + "/reviews?per_page=100"@,
        comments@ == pull@ + "/comments?per_page=100"@,
        runs@ == "/repos/"@ + pr.owner@ + "/"@ + pr.repo@ + "/commits/"@ + sha@
            + "/check-runs?per_page=100"@,
{
}

/// Nothing but the URL of a pull request on GitHub names one: the address, the
/// owner, the repository, the word `pull`, the number, and slashes at most
/// behind it.
#[verifier::spinoff_prover]
#[verifier::rlimit(40)]
pub proof fn only_pull_request_urls_are_read(url: &str, r: Option<PullRef>)
    requires
        call_ensures(PullRef::parse, (url,), r),
    ensures
        r matches Some(p) ==> exists|start: Seq<char>, digits: Seq<char>, slashes: Seq<char>|
            {
                &&& #[trigger] (start + p.owner@ + seq!['/'] + p.repo@ + seq!['/'] + "pull"@
                    + seq!['/'] + digits + slashes) == url@
                &&& start == "https://github.com/"@ || start == "http://github.com/"@
                &&& unsigned_value(digits, u64::MAX as nat) == Some(p.number as nat)
                &&& forall|i: int| 0 <= i < slashes.len() ==> #[trigger] slashes[i] == '/'
            },
        r matches Some(p) ==> p.owner@.len() > 0 && p.repo@.len() > 0 && !p.owner@.contains('/')
            && !p.repo@.contains('/'),
{
    if let Some(p) = r {
        let rest = github_path(url@)->0;
        let path = without_trailing(rest, '/');
        let parts = fields(path, '/');
        let start = if starts(url@, "https://github.com/"@) {
            "https://github.com/"@
        } else {
            "http://github.com/"@
        };
        let digits = parts[3];
        splitting_and_joining(path, '/');
        crate::text::lemma_without_trailing(rest, '/');
        let slashes = rest.skip(path.len() as int);
        assert forall|i: int| 0 <= i < slashes.len() implies #[trigger] slashes[i] == '/' by {
            assert(slashes[i] == rest[path.len() + i]);
        }
        assert(rest =~= path + slashes);
        assert(url@ =~= start + rest);
        assert(parts =~= seq![p.owner@, p.repo@, "pull"@, digits]);
        lemma_joined_four(p.owner@, p.repo@, "pull"@, digits);
        assert(start + p.owner@ + seq!['/'] + p.repo@ + seq!['/'] + "pull"@ + seq!['/'] + digits
            + slashes =~= start + (p.owner@ + seq!['/'] + p.repo@ + seq!['/'] + "pull"@ + seq!['/']
            + digits + slashes));
        assert(parts[0] == p.owner@ && parts[1] == p.repo@);
    }
}

proof fn lemma_joined_four(a: Seq<char>, b: Seq<char>, c: Seq<char>, d: Seq<char>)
    ensures
        joined(seq![a, b, c, d], seq!['/']) == a + seq!['/'] + b + seq!['/'] + c + seq!['/'] + d,
{
    let none = Seq::<Seq<char>>::empty();
    joining_appends(none, a, seq!['/']);
    joining_appends(none.push(a), b, seq!['/']);
    joining_appends(none.push(a).push(b), c, seq!['/']);
    joining_appends(none.push(a).push(b).push(c), d, seq!['/']);
    assert(none.push(a).push(b).push(c).push(d) =~= seq![a, b, c, d]);
}

proof fn lemma_slashes_come_off(path: Seq<char>, slashes: Seq<char>)
    requires
        path.len() > 0,
        path.last() != '/',
        forall|i: int| 0 <= i < slashes.len() ==> #[trigger] slashes[i] == '/',
    ensures
        without_trailing(path + slashes, '/') == path,
    decreases slashes.len(),
{
    let s = path + slashes;
    if slashes.len() == 0 {
        assert(s =~= path);
    } else {
        let less = slashes.drop_last();
        assert(slashes[slashes.len() - 1] == '/');
        assert(s.drop_last() =~= path + less);
        assert forall|i: int| 0 <= i < less.len() implies #[trigger] less[i] == '/' by {
            assert(less[i] == slashes[i]);
        }
        lemma_slashes_come_off(path, less);
    }
}

/// Every address of a pull request is read, encrypted or not, with slashes at
/// its end or none, and gives its owner, repository and number.
#[verifier::spinoff_prover]
#[verifier::rlimit(40)]
pub proof fn every_pull_request_url_is_read(
    url: &str,
    r: Option<PullRef>,
    encrypted: bool,
    owner: Seq<char>,
    repo: Seq<char>,
    digits: Seq<char>,
    number: u64,
    slashes: Seq<char>,
)
    requires
        call_ensures(PullRef::parse, (url,), r),
        owner.len() > 0,
        repo.len() > 0,
        !owner.contains('/'),
        !repo.contains('/'),
        digits.len() > 0,
        !digits.contains('/'),
        unsigned_value(digits, u64::MAX as nat) == Some(number as nat),
        forall|i: int| 0 <= i < slashes.len() ==> #[trigger] slashes[i] == '/',
        url@ == (if encrypted {
            "https://github.com/"@
        } else {
            "http://github.com/"@
        }) + (owner + seq!['/'] + (repo + seq!['/'] + ("pull"@ + seq!['/'] + digits)) + slashes),
    ensures
        r matches Some(pr) && pr.owner@ == owner && pr.repo@ == repo && pr.number == number,
{
    reveal_strlit("pull");
    reveal_strlit("https://github.com/");
    reveal_strlit("http://github.com/");
    let third = "pull"@ + seq!['/'] + digits;
    let second = repo + seq!['/'] + third;
    let path = owner + seq!['/'] + second;
    let rest = path + slashes;
    prefixes_come_off(url@, "https://github.com/"@, rest);
    prefixes_come_off(url@, "http://github.com/"@, rest);
    if !encrypted {
        assert(url@[4] == ':');
        if starts(url@, "https://github.com/"@) {
            assert(url@.take(19)[4] == 's');
        }
    }
    assert(path.last() == digits.last());
    assert(digits[digits.len() - 1] != '/') by {
        if digits[digits.len() - 1] == '/' {
            assert(digits.contains('/'));
        }
    }
    lemma_slashes_come_off(path, slashes);
    assert(!"pull"@.contains('/'));
    lemma_fields_first(owner, '/', second);
    lemma_fields_first(repo, '/', third);
    lemma_fields_first("pull"@, '/', digits);
    lemma_fields_one(digits, '/');
    assert(fields(path, '/') =~= seq![owner, repo, "pull"@, digits]);
}

/// The App keeps its number and key when the key is one, and asks for tokens
/// under its API: for the installation on a repository, and then there.
pub proof fn apps_ask_for_tokens_under_their_api(
    app_id: u64,
    pem: &str,
    api_base: String,
    made: Result<GitHubAppClient, String>,
    client: &GitHubAppClient,
    copy: GitHubAppClient,
    repo: &str,
    installation: u64,
    found: String,
    minted: String,
    error: &str,
    missing: String,
)
    requires
        call_ensures(GitHubAppClient::new, (app_id, pem, api_base), made),
        call_ensures(GitHubAppClient::copied, (client,), copy),
        call_ensures(GitHubAppClient::installation_url, (client, repo), found),
        call_ensures(GitHubAppClient::access_tokens_url, (client, installation), minted),
        call_ensures(not_installed, (repo, error), missing),
    ensures
        made is Ok <==> rsa_pem_error(pem@) is None,
        made matches Ok(app) ==> app.id() == app_id && app.pem() == pem@ && app.base() == api_base@,
        made matches Err(e) ==> rsa_pem_error(pem@) == Some(e@),
        copy.id() == client.id() && copy.pem() == client.pem() && copy.base() == client.base(),
        found@ == client.base() + "/repos/"@ + repo@ + "/installation"@,
        minted@ == client.base() + "/app/installations/"@ + decimal(installation as nat)
            + "/access_tokens"@,
        missing@ == "app not installed on "@ + repo@ + "? "@ + error@,
{
}

/// The App signs with its own key what it claims: its number, issued a minute
/// ago and good for nine.
pub proof fn apps_sign_what_they_claim(
    client: &GitHubAppClient,
    now: i64,
    r: Result<String, String>,
    iat: i64,
    exp: i64,
)
    requires
        call_ensures(GitHubAppClient::app_jwt, (client, now), r),
        FIRST_SECS <= now <= LAST_SECS,
        iat == now - 60,
        exp == now + 540,
    ensures
        r matches Ok(token) ==> signed_jwt(client.pem(), iat, exp, decimal(client.id() as nat))
            == Ok::<Seq<char>, Seq<char>>(token@),
        r matches Err(error) ==> signed_jwt(client.pem(), iat, exp, decimal(client.id() as nat))
            == Err::<Seq<char>, Seq<char>>(error@),
{
}

/// A kept token is found again for its own repository while it lasts five
/// minutes more, and other repositories keep what they had; no tokens are kept
/// at first.
pub proof fn kept_tokens_are_found_again(
    fresh: ReadTokens,
    tokens: &mut ReadTokens,
    repo: &str,
    minted: InstallationToken,
    other: &str,
    now: &Timestamp,
    nothing: Option<&str>,
    had: Option<&str>,
    has: Option<&str>,
)
    requires
        call_ensures(ReadTokens::new, (), fresh),
        call_ensures(ReadTokens::reusable, (&fresh, other, now), nothing),
        call_ensures(ReadTokens::keep, (tokens, repo, minted), ()),
        call_ensures(ReadTokens::reusable, (old(tokens), other, now), had),
        call_ensures(ReadTokens::reusable, (final(tokens), other, now), has),
    ensures
        nothing is None,
        other@ == repo@ ==> (has is Some <==> (minted.expires_at.secs - now.secs) * 1_000_000_000
            + minted.expires_at.nanos - now.nanos > 300_000_000_000),
        other@ == repo@ ==> (has matches Some(token) ==> token@ == minted.token@),
        other@ != repo@ ==> (has is Some <==> had is Some),
        other@ != repo@ ==> (has matches Some(token) ==> token@ == had->0@),
{
    assert(minted.expires_at.instant() - now.instant() == (minted.expires_at.secs - now.secs)
        * 1_000_000_000 + minted.expires_at.nanos - now.nanos);
}

/// A client calls the API it was made for, with the credential it was given.
pub proof fn clients_call_their_api(
    api_base: String,
    auth: GithubAuth,
    api: GitHubApi,
    base: &str,
    path: &str,
    url: String,
    credential: &GithubAuth,
    kind: &'static str,
)
    requires
        call_ensures(GitHubApi::new, (api_base, auth), api),
        call_ensures(GitHubApi::api_base, (&api,), base),
        call_ensures(GitHubApi::url, (&api, path), url),
        call_ensures(GitHubApi::auth, (&api,), credential),
        call_ensures(GithubAuth::kind, (&auth,), kind),
    ensures
        base@ == api_base@,
        url@ == api_base@ + path@,
        *credential == auth,
        auth is App ==> kind@ == "app"@,
        auth is Pat ==> kind@ == "pat"@,
{
}

/// What an answer with an error says of rate limits is read from it alone, as
/// it is for any answer.
pub proof fn error_answers_are_judged_alike(
    status: u16,
    headers: &RateHeaders,
    error: GithubError,
    judged: Result<(), GithubError>,
)
    requires
        call_ensures(status_error, (status, headers), error),
        call_ensures(check_status, (status, headers), judged),
        status < 200 || status > 299,
    ensures
        judged == Err::<(), GithubError>(error),
{
}

} // verus!
