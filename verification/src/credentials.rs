//! Credentials that hosts obtain for the sessions they run.

use vstd::prelude::*;

use crate::github::{GitHubAppClient, GithubAuth, InstallationToken};
use crate::model::Session;
use crate::text::same_text;
use crate::time::Timestamp;

verus! {

/// A credential for a session.
#[derive(Debug)]
pub struct IssuedCredential {
    pub secret: String,
    pub expires_at: Option<Timestamp>,
}

/// Why no credential was issued.
#[derive(Debug)]
pub enum IssueError {
    /// Provider is configured but doesn't apply to this session → 422
    NotApplicable(String),
    /// Upstream (GitHub/etc.) failure → 502
    Upstream(String),
}

/// The repository ("owner/name") a GitHub credential applies to.
pub open spec fn repo_of(session: Session) -> Option<Seq<char>> {
    match session.environment.repo {
        Some(repo) => if session.environment.kind@ == "github_repo"@ {
            Some(repo@)
        } else {
            None
        },
        None => None,
    }
}

/// The error for a session that does not run against a repository.
pub open spec fn is_not_applicable(e: IssueError) -> bool {
    e matches IssueError::NotApplicable(reason) && reason@
        == "session has no github_repo environment"@
}

/// The repository ("owner/name") a GitHub credential applies to, or
/// `NotApplicable` for sessions that do not run against a GitHub repository.
pub fn github_repo(session: &Session) -> (r: Result<&str, IssueError>)
    ensures
        match r {
            Ok(repo) => repo_of(*session) == Some(repo@),
            Err(e) => repo_of(*session) is None && is_not_applicable(e),
        },
{
    match &session.environment.repo {
        Some(repo) => if same_text(session.environment.kind.as_str(), "github_repo") {
            return Ok(repo.as_str());
        },
        None => {},
    }
    Err(IssueError::NotApplicable("session has no github_repo environment".to_owned()))
}

/// Mints GitHub App installation tokens for github_repo sessions.
pub struct GithubCredentialProvider {
    pub client: GitHubAppClient,
}

impl GithubCredentialProvider {
    /// The provider's name.
    pub fn name(&self) -> (r: &'static str)
        ensures
            r@ == "github"@,
    {
        "github"
    }

    /// The repository to mint a token for.
    pub fn repo_for<'a>(&self, session: &'a Session) -> (r: Result<&'a str, IssueError>)
        ensures
            match r {
                Ok(repo) => repo_of(*session) == Some(repo@),
                Err(e) => repo_of(*session) is None && is_not_applicable(e),
            },
    {
        github_repo(session)
    }

    /// The credential for a session, given how minting went.
    pub fn issue(&self, minted: Result<InstallationToken, String>) -> (r: Result<
        IssuedCredential,
        IssueError,
    >)
        ensures
            match minted {
                Ok(token) => r matches Ok(c) && c.secret == token.token && c.expires_at == Some(
                    token.expires_at,
                ),
                Err(error) => r == Err::<IssuedCredential, IssueError>(IssueError::Upstream(error)),
            },
    {
        match minted {
            Ok(token) => Ok(
                IssuedCredential { secret: token.token, expires_at: Some(token.expires_at) },
            ),
            Err(error) => Err(IssueError::Upstream(error)),
        }
    }
}

/// Hands out one personal access token for every github_repo session. The
/// fallback for servers without the GitHub App; the PAT never expires from
/// the server's point of view, so `expires_at` is `None`.
pub struct PatCredentialProvider {
    pat: String,
}

impl View for PatCredentialProvider {
    type V = Seq<char>;

    /// The token.
    closed spec fn view(&self) -> Seq<char> {
        self.pat@
    }
}

impl PatCredentialProvider {
    /// Hands out `pat`.
    pub fn new(pat: String) -> (r: PatCredentialProvider)
        ensures
            r@ == pat@,
    {
        PatCredentialProvider { pat }
    }

    /// The provider's name.
    pub fn name(&self) -> (r: &'static str)
        ensures
            r@ == "github"@,
    {
        "github"
    }

    /// The credential for a session.
    pub fn issue(&self, session: &Session) -> (r: Result<IssuedCredential, IssueError>)
        ensures
            match r {
                Ok(c) => repo_of(*session) is Some && c.secret@ == self@ && c.expires_at is None,
                Err(e) => repo_of(*session) is None && is_not_applicable(e),
            },
    {
        match github_repo(session) {
            Ok(_) => Ok(IssuedCredential { secret: self.pat.clone(), expires_at: None }),
            Err(e) => Err(e),
        }
    }
}

/// A source of credentials.
pub enum CredentialProvider {
    App(GithubCredentialProvider),
    Pat(PatCredentialProvider),
}

impl GithubAuth {
    /// The "github" credential provider hosts obtain tokens from: the same
    /// source as the server's own reads.
    pub fn credential_provider(&self) -> (r: CredentialProvider)
        ensures
            match self {
                GithubAuth::App(client) => r matches CredentialProvider::App(p) && p.client.id()
                    == client.id() && p.client.pem() == client.pem() && p.client.base()
                    == client.base(),
                GithubAuth::Pat(pat) => r matches CredentialProvider::Pat(p) && p@ == pat@,
            },
    {
        match self {
            GithubAuth::App(client) => CredentialProvider::App(
                GithubCredentialProvider { client: client.copied() },
            ),
            GithubAuth::Pat(pat) => CredentialProvider::Pat(
                PatCredentialProvider::new(pat.clone()),
            ),
        }
    }
}

/// Credentials are for sessions that run against a repository: exactly those
/// get the PAT, which does not expire, and no other does.
pub proof fn pats_are_for_repositories(
    provider: &PatCredentialProvider,
    session: &Session,
    r: Result<IssuedCredential, IssueError>,
)
    requires
        call_ensures(PatCredentialProvider::issue, (provider, session), r),
    ensures
        r is Ok <==> session.environment.kind@ == "github_repo"@ && session.environment.repo is Some,
        r matches Ok(issued) ==> issued.secret@ == provider@ && issued.expires_at is None,
        r matches Err(e) ==> e is NotApplicable,
{
}

/// The App mints a token for the session's own repository, and hands out that
/// token with its expiry; a mint that failed is reported as such.
pub proof fn minted_tokens_are_handed_out(
    provider: &GithubCredentialProvider,
    session: &Session,
    repo: Result<&str, IssueError>,
    minted: Result<InstallationToken, String>,
    r: Result<IssuedCredential, IssueError>,
)
    requires
        call_ensures(GithubCredentialProvider::repo_for, (provider, session), repo),
        call_ensures(GithubCredentialProvider::issue, (provider, minted), r),
    ensures
        repo is Ok <==> session.environment.kind@ == "github_repo"@ && session.environment.repo
            is Some,
        repo matches Ok(name) ==> name@ == session.environment.repo->0@,
        repo matches Err(e) ==> e is NotApplicable,
        minted matches Ok(token) ==> (r matches Ok(issued) && issued.secret@ == token.token@
            && issued.expires_at == Some(token.expires_at)),
        minted matches Err(error) ==> (r matches Err(IssueError::Upstream(e)) && e@ == error@),
{
}

/// Hosts get their credentials from the source that the server reads with.
pub proof fn hosts_share_the_servers_source(auth: &GithubAuth, r: CredentialProvider)
    requires
        call_ensures(GithubAuth::credential_provider, (auth,), r),
    ensures
        auth matches GithubAuth::Pat(pat) ==> (r matches CredentialProvider::Pat(p) && p@ == pat@),
        auth matches GithubAuth::App(client) ==> (r matches CredentialProvider::App(p)
            && p.client.id() == client.id() && p.client.pem() == client.pem() && p.client.base()
            == client.base()),
{
}

/// Both providers are known as GitHub's, and a session without a repository
/// is told so.
pub proof fn providers_are_githubs(
    pat: String,
    made: PatCredentialProvider,
    by_pat: &'static str,
    provider: &GithubCredentialProvider,
    by_app: &'static str,
    session: &Session,
    repo: Result<&str, IssueError>,
)
    requires
        call_ensures(PatCredentialProvider::new, (pat,), made),
        call_ensures(PatCredentialProvider::name, (&made,), by_pat),
        call_ensures(GithubCredentialProvider::name, (provider,), by_app),
        call_ensures(github_repo, (session,), repo),
    ensures
        made@ == pat@,
        by_pat@ == "github"@,
        by_app@ == "github"@,
        repo matches Ok(name) ==> session.environment.kind@ == "github_repo"@
            && session.environment.repo is Some && name@ == session.environment.repo->0@,
        repo matches Err(e) ==> (e matches IssueError::NotApplicable(why) && why@
            == "session has no github_repo environment"@),
{
}

} // verus!
