//! Caller identity for user-facing routes.
//!
//! Sessions CRUD and host enrollment resolve *who is calling* from the
//! request's `Authorization` header. There are two ways: [`OpenAccess`], which
//! accepts every request (the behavior when `VISE_API_TOKEN` is unset), and
//! [`StaticToken`], which requires `Authorization: Bearer <token>` with the
//! one token from `VISE_API_TOKEN`.
//!
//! Host-protocol routes (`/hosts/claim`, `/hosts/sessions/*`) are not affected:
//! they authenticate the host itself with its `vhost_` token.

use vstd::prelude::*;
use vstd::string::*;
use vstd::utf8::*;

use crate::model::WorkspaceId;
use crate::text::{
    after_prefix, all_white, chars_of, is_white, lemma_trimmed_is_part, prefixes_come_off, starts,
    strip_prefix, text_of, trim, trim_start, trimmed, trimming_finds_the_text,
};

verus! {

/// Environment variable holding the static API token.
pub const API_TOKEN_ENV: &'static str = "VISE_API_TOKEN";

/// The resolved identity of whoever is calling a user-facing route.
#[derive(Debug, Clone, PartialEq, Eq)]
#[non_exhaustive]
pub struct Caller {
    /// Stable identifier of the principal (user id, API key id, ...), when
    /// there is one.
    pub subject: Option<String>,
    /// Workspace the caller acts in; the default one is the only one an OSS
    /// deployment has.
    pub workspace: WorkspaceId,
}

/// A caller with no identity in the default workspace.
pub open spec fn is_anonymous(caller: Caller) -> bool {
    caller.subject is None && caller.workspace@ == "default"@
}

impl Caller {
    /// A caller with no identity and the default workspace.
    pub fn anonymous() -> (r: Caller)
        ensures
            is_anonymous(r),
    {
        Caller { subject: None, workspace: WorkspaceId::default() }
    }

    /// A caller identified by `subject`, in the default workspace.
    pub fn new(subject: &str) -> (r: Caller)
        ensures
            r.subject matches Some(s) && s@ == subject@,
            r.workspace@ == "default"@,
    {
        Caller { subject: Some(subject.to_owned()), workspace: WorkspaceId::default() }
    }

    /// Set the workspace the caller acts in.
    pub fn with_workspace(self, workspace: &str) -> (r: Caller)
        ensures
            r.subject == self.subject,
            r.workspace@ == workspace@,
    {
        Caller { subject: self.subject, workspace: WorkspaceId::new(workspace) }
    }
}

/// Why a caller could not be resolved.
#[derive(Debug)]
pub enum CallerError {
    /// The request carries no credential, or one that does not identify a
    /// caller. Rendered as `401 Unauthorized`.
    Unauthorized,
    /// The credential could not be checked (a lookup failed, ...). Rendered
    /// as `500 Internal Server Error`; the cause is logged, not returned.
    Internal(String),
}

impl CallerError {
    /// The status that the request is answered with, and the value of the
    /// response's `WWW-Authenticate` header. The cause of an internal error is
    /// no part of the answer.
    pub fn response(&self) -> (r: (u16, Option<&'static str>))
        ensures
            match self {
                CallerError::Unauthorized => r.0 == 401 && (r.1 matches Some(h) && h@ == "Bearer"@),
                CallerError::Internal(_) => r.0 == 500 && r.1 is None,
            },
    {
        match self {
            CallerError::Unauthorized => (401, Some("Bearer")),
            CallerError::Internal(_) => (500, None),
        }
    }
}

/// The token in the value of an `Authorization` header.
pub open spec fn bearer(authorization: Option<Seq<char>>) -> Option<Seq<char>> {
    match authorization {
        Some(value) => match after_prefix(value, "Bearer "@) {
            Some(rest) => if trimmed(rest).len() > 0 {
                Some(trimmed(rest))
            } else {
                None
            },
            None => None,
        },
        None => None,
    }
}

/// The view of an optional header.
pub open spec fn header_view(h: Option<&str>) -> Option<Seq<char>> {
    match h {
        Some(s) => Some(s@),
        None => None,
    }
}

/// The token in an `Authorization: Bearer <token>` header, if any.
pub fn bearer_token(authorization: Option<&str>) -> (r: Option<&str>)
    ensures
        header_view(r) == bearer(header_view(authorization)),
{
    match authorization {
        Some(value) => {
            let chars: Vec<char> = chars_of(value);
            let prefix: Vec<char> = chars_of("Bearer ");
            match strip_prefix(&chars, &prefix) {
                Some(rest) => {
                    let body: &[char] = trim_start(rest);
                    let token: &[char] = trim(rest);
                    proof {
                        lemma_trimmed_is_part(rest@);
                    }
                    if token.len() > 0 {
                        let start: usize = chars.len() - body.len();
                        proof {
                            let a = rest@.len() - body@.len();
                            assert(value@.subrange(start as int, start + token@.len())
                                =~= rest@.subrange(a, a + token@.len()));
                        }
                        Some(value.substring_char(start, start + token.len()))
                    } else {
                        None
                    }
                },
                None => None,
            }
        },
        None => None,
    }
}

/// The token that a host presents: everything behind `Bearer `.
pub open spec fn host_bearer(authorization: Option<Seq<char>>) -> Option<Seq<char>> {
    match authorization {
        Some(value) => after_prefix(value, "Bearer "@),
        None => None,
    }
}

/// The token that a host presents in its `Authorization` header, if any.
pub fn host_token(authorization: Option<&str>) -> (r: Option<String>)
    ensures
        match r {
            Some(t) => host_bearer(header_view(authorization)) == Some(t@),
            None => host_bearer(header_view(authorization)) is None,
        },
{
    match authorization {
        Some(value) => match strip_prefix(&chars_of(value), &chars_of("Bearer ")) {
            Some(rest) => Some(text_of(rest)),
            None => None,
        },
        None => None,
    }
}

/// Accepts every request as an anonymous caller. The default when
/// `VISE_API_TOKEN` is unset.
#[derive(Debug, Clone, Copy)]
pub struct OpenAccess;

impl OpenAccess {
    /// The caller behind a request.
    pub fn extract(&self, authorization: Option<&str>) -> (r: Result<Caller, CallerError>)
        ensures
            r matches Ok(caller) && is_anonymous(caller),
    {
        Ok(Caller::anonymous())
    }
}

/// `subtle`'s `ConstantTimeEq::ct_eq` on byte slices, in time that does not
/// depend on where they differ: true exactly when both hold the same bytes.
#[verifier::external_body]
fn bytes_equal(a: &[u8], b: &[u8]) -> (r: bool)
    ensures
        r == (a@ == b@),
{
    bool::from(subtle::ConstantTimeEq::ct_eq(a, b))
}

/// Requires `Authorization: Bearer <token>` with one shared, static token.
///
/// Every request carrying the token is the same anonymous caller in the
/// default workspace; the token proves possession, not identity.
#[derive(Clone)]
pub struct StaticToken {
    token: String,
}

impl View for StaticToken {
    type V = Seq<char>;

    /// The token.
    closed spec fn view(&self) -> Seq<char> {
        self.token@
    }
}

impl StaticToken {
    /// Requires `token`.
    pub fn new(token: &str) -> (r: StaticToken)
        ensures
            r@ == token@,
    {
        StaticToken { token: token.to_owned() }
    }

    /// The token in the value of [`API_TOKEN_ENV`]: whitespace is trimmed and a
    /// blank value counts as unset.
    pub fn from_value(value: Option<String>) -> (r: Option<StaticToken>)
        ensures
            match value {
                Some(v) => if trimmed(v@).len() > 0 {
                    r matches Some(t) && t@ == trimmed(v@)
                } else {
                    r is None
                },
                None => r is None,
            },
    {
        match value {
            Some(value) => {
                let chars: Vec<char> = chars_of(value.as_str());
                let token: &[char] = trim(&chars);
                if token.len() > 0 {
                    Some(StaticToken { token: text_of(token) })
                } else {
                    None
                }
            },
            None => None,
        }
    }

    /// The token.
    pub fn token(&self) -> (r: &str)
        ensures
            r@ == self@,
    {
        self.token.as_str()
    }

    /// The caller behind a request: it must carry the token, the whole token
    /// and nothing but the token.
    pub fn extract(&self, authorization: Option<&str>) -> (r: Result<Caller, CallerError>)
        ensures
            match r {
                Ok(caller) => bearer(header_view(authorization)) == Some(self@) && is_anonymous(
                    caller,
                ),
                Err(e) => bearer(header_view(authorization)) != Some(self@) && e is Unauthorized,
            },
    {
        match bearer_token(authorization) {
            Some(presented) => {
                proof {
                    encode_utf8_decode_utf8(presented@);
                    encode_utf8_decode_utf8(self@);
                }
                if bytes_equal(presented.as_bytes(), self.token.as_str().as_bytes()) {
                    Ok(Caller::anonymous())
                } else {
                    Err(CallerError::Unauthorized)
                }
            },
            None => Err(CallerError::Unauthorized),
        }
    }
}

/// How callers are resolved.
pub enum Extractor {
    Static(StaticToken),
    Open(OpenAccess),
}

impl Extractor {
    /// The caller behind a request.
    pub fn extract(&self, authorization: Option<&str>) -> (r: Result<Caller, CallerError>)
        ensures
            match r {
                Ok(caller) => is_anonymous(caller) && match self {
                    Extractor::Static(token) => bearer(header_view(authorization)) == Some(token@),
                    Extractor::Open(_) => true,
                },
                Err(e) => e is Unauthorized && match self {
                    Extractor::Static(token) => bearer(header_view(authorization)) != Some(token@),
                    Extractor::Open(_) => false,
                },
            },
    {
        match self {
            Extractor::Static(token) => token.extract(authorization),
            Extractor::Open(open) => open.extract(authorization),
        }
    }
}

/// The extractor the OSS server runs with, given the value of
/// [`API_TOKEN_ENV`]: [`StaticToken`] when it is set, otherwise
/// [`OpenAccess`].
pub fn from_env(value: Option<String>) -> (r: Extractor)
    ensures
        match value {
            Some(v) => if trimmed(v@).len() > 0 {
                r matches Extractor::Static(t) && t@ == trimmed(v@)
            } else {
                r is Open
            },
            None => r is Open,
        },
{
    match StaticToken::from_value(value) {
        Some(token) => Extractor::Static(token),
        None => Extractor::Open(OpenAccess),
    }
}

/// The caller that a user-facing route was called by.
///
/// A request that the extractor rejects never reaches the route.
#[derive(Debug, Clone)]
pub struct AuthedCaller(pub Caller);

impl AuthedCaller {
    /// Resolves the caller of a user-facing route.
    pub fn from_request(extractor: &Extractor, authorization: Option<&str>) -> (r: Result<
        AuthedCaller,
        CallerError,
    >)
        ensures
            match (r, extractor) {
                (Ok(a), Extractor::Static(token)) => is_anonymous(a.0) && bearer(
                    header_view(authorization),
                ) == Some(token@),
                (Ok(a), Extractor::Open(_)) => is_anonymous(a.0),
                (Err(e), Extractor::Static(token)) => e is Unauthorized && bearer(
                    header_view(authorization),
                ) != Some(token@),
                (Err(_), Extractor::Open(_)) => false,
            },
    {
        match extractor.extract(authorization) {
            Ok(caller) => Ok(AuthedCaller(caller)),
            Err(e) => Err(e),
        }
    }
}

/// A request that carries a token of visible characters as its bearer
/// credential is let in exactly when it is the configured one.
pub proof fn static_token_admits_only_itself(presented: Seq<char>, configured: Seq<char>)
    requires
        trimmed(presented) == presented,
        presented.len() > 0,
    ensures
        bearer(Some("Bearer "@ + presented)) == Some(configured) <==> presented == configured,
{
    let value = "Bearer "@ + presented;
    assert(value.take("Bearer "@.len() as int) =~= "Bearer "@);
    assert(value.skip("Bearer "@.len() as int) =~= presented);
}

/// A server with a token lets a request in exactly when what it carries behind
/// `Bearer `, white space around it aside, is the token; who is let in is
/// nobody in particular, in the default workspace.
pub proof fn only_the_token_opens_the_server(
    token: StaticToken,
    authorization: Option<&str>,
    r: Result<AuthedCaller, CallerError>,
    a: Seq<char>,
    presented: Seq<char>,
    b: Seq<char>,
)
    requires
        call_ensures(
            AuthedCaller::from_request,
            (&Extractor::Static(token), authorization),
            r,
        ),
        all_white(a),
        all_white(b),
        presented.len() > 0,
        !is_white(presented[0]),
        !is_white(presented.last()),
    ensures
        r matches Ok(caller) ==> caller.0.subject is None && caller.0.workspace@ == "default"@,
        r matches Err(e) ==> e is Unauthorized,
        authorization matches Some(value) && value@ == "Bearer "@ + (a + presented + b) ==> (r is Ok
            <==> presented == token@),
        authorization is None ==> r is Err,
        authorization matches Some(value) && !starts(value@, "Bearer "@) ==> r is Err,
        authorization matches Some(value) && value@ == "Bearer "@ + a ==> r is Err,
{
    let none = Seq::<char>::empty();
    trimming_finds_the_text(a, presented, b);
    trimming_finds_the_text(a, none, none);
    assert(a + none + none =~= a);
    if let Some(value) = authorization {
        prefixes_come_off(value@, "Bearer "@, a + presented + b);
        prefixes_come_off(value@, "Bearer "@, a);
    }
}

/// A server without a token lets every request in, as nobody in particular in
/// the default workspace. It has one exactly when its variable is not blank,
/// and then the variable's text.
pub proof fn a_configured_token_closes_the_server(
    value: Option<String>,
    extractor: Extractor,
    authorization: Option<&str>,
    r: Result<AuthedCaller, CallerError>,
)
    requires
        call_ensures(from_env, (value,), extractor),
        call_ensures(AuthedCaller::from_request, (&extractor, authorization), r),
    ensures
        extractor is Static <==> value is Some && trimmed(value->0@).len() > 0,
        extractor matches Extractor::Static(token) ==> token@ == trimmed(value->0@),
        extractor is Open ==> (r matches Ok(caller) && caller.0.subject is None
            && caller.0.workspace@ == "default"@),
{
}

/// A host presents everything behind `Bearer `, to the character.
pub proof fn hosts_present_their_whole_token(
    authorization: Option<&str>,
    r: Option<String>,
    rest: Seq<char>,
)
    requires
        call_ensures(host_token, (authorization,), r),
    ensures
        authorization matches Some(value) && value@ == "Bearer "@ + rest ==> (r matches Some(t)
            && t@ == rest),
        authorization is None ==> r is None,
        authorization matches Some(value) && !starts(value@, "Bearer "@) ==> r is None,
{
    if let Some(value) = authorization {
        prefixes_come_off(value@, "Bearer "@, rest);
    }
}

/// A request without a caller is challenged, and one whose caller could not be
/// looked up is not told why.
pub proof fn rejections_are_answered(error: &CallerError, r: (u16, Option<&'static str>))
    requires
        call_ensures(CallerError::response, (error,), r),
    ensures
        error is Unauthorized ==> r.0 == 401 && (r.1 matches Some(h) && h@ == "Bearer"@),
        error is Internal ==> r.0 == 500 && r.1 is None,
{
}

/// A caller acts in the workspace that was set, and in the default one
/// otherwise.
pub proof fn callers_act_in_their_workspace(
    subject: &str,
    workspace: &str,
    plain: Caller,
    moved: Caller,
    anonymous: Caller,
)
    requires
        call_ensures(Caller::new, (subject,), plain),
        call_ensures(Caller::with_workspace, (plain, workspace), moved),
        call_ensures(Caller::anonymous, (), anonymous),
    ensures
        plain.subject matches Some(s) && s@ == subject@,
        plain.workspace@ == "default"@,
        moved.subject == plain.subject,
        moved.workspace@ == workspace@,
        anonymous.subject is None,
        anonymous.workspace@ == "default"@,
{
}

/// A static token is the text it was made of, and is taken from a variable
/// without the white space around it.
pub proof fn static_tokens_are_their_text(
    token: &str,
    made: StaticToken,
    shown: &str,
    value: Option<String>,
    read: Option<StaticToken>,
    a: Seq<char>,
    text: Seq<char>,
    b: Seq<char>,
)
    requires
        call_ensures(StaticToken::new, (token,), made),
        call_ensures(StaticToken::token, (&made,), shown),
        call_ensures(StaticToken::from_value, (value,), read),
        all_white(a),
        all_white(b),
        text.len() > 0 ==> !is_white(text[0]) && !is_white(text.last()),
    ensures
        shown@ == token@,
        value is None ==> read is None,
        value matches Some(v) && v@ == a + text + b ==> (read is Some <==> text.len() > 0),
        value matches Some(v) && v@ == a + text + b ==> (read matches Some(t) ==> t@ == text),
{
    trimming_finds_the_text(a, text, b);
}

/// However a caller is resolved, the answer is the extractor's own.
pub proof fn callers_are_resolved_by_their_extractor(
    token: StaticToken,
    authorization: Option<&str>,
    by_token: Result<Caller, CallerError>,
    by_static: Result<Caller, CallerError>,
    by_open: Result<Caller, CallerError>,
    presented: Option<&str>,
)
    requires
        call_ensures(StaticToken::extract, (&token, authorization), by_token),
        call_ensures(Extractor::extract, (&Extractor::Static(token), authorization), by_static),
        call_ensures(OpenAccess::extract, (&OpenAccess, authorization), by_open),
        call_ensures(bearer_token, (authorization,), presented),
    ensures
        by_token is Ok <==> by_static is Ok,
        by_token is Ok <==> (presented matches Some(p) && p@ == token@),
        by_open matches Ok(caller) && caller.subject is None && caller.workspace@ == "default"@,
{
}

} // verus!
