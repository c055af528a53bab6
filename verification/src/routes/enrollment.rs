//! Reusable enrollment tokens. Mint/list/revoke are user-facing routes
//! resolved through the caller-identity seam like the rest of the fleet
//! management; the exchange route is deliberately outside it — the
//! enrollment token *in the request body* is what authenticates a booting
//! host, which has no API token of its own.

use vstd::prelude::*;

use crate::model::WorkspaceId;
use crate::routes::hosts::{EnrollHostResponse, Host};
use crate::routes::{
    answer, answer_if_present, answered_if_present, guard, guarded, own_items, scoped, RouteStep,
    Scoped, StoreError, CREATED, INTERNAL_SERVER_ERROR, NOT_FOUND, UNAUTHORIZED,
    UNPROCESSABLE_ENTITY,
};
use crate::time::Timestamp;

verus! {

/// A token by which hosts enroll themselves. It does not hold the secret.
#[derive(Debug)]
pub struct EnrollmentToken {
    pub id: String,
    pub workspace_id: WorkspaceId,
    pub max_uses: Option<i64>,
    pub uses: i64,
    pub created_at: Timestamp,
    pub revoked_at: Option<Timestamp>,
}

impl Scoped for EnrollmentToken {
    open spec fn scope(&self) -> Seq<char> {
        self.workspace_id@
    }

    fn workspace(&self) -> (r: &WorkspaceId) {
        &self.workspace_id
    }
}

/// A token to mint.
#[derive(Debug, Clone, Copy, PartialEq, Eq, Structural)]
pub struct MintEnrollmentTokenRequest {
    /// Maximum number of hosts this token may enroll; omit for unlimited.
    pub max_uses: Option<i64>,
}

/// A minted token.
#[derive(Debug)]
pub struct MintEnrollmentTokenResponse {
    pub token: EnrollmentToken,
    /// The enrollment secret (`venroll_...`). Shown exactly once; store it
    /// safely.
    pub secret: String,
}

/// A token to exchange.
#[derive(Debug)]
pub struct ExchangeEnrollmentTokenRequest {
    /// The enrollment secret (`venroll_...`) this host was provisioned with.
    pub token: String,
    /// Prefix for the generated host name; defaults to "host".
    pub name_prefix: Option<String>,
}

/// The check that a request passes before a token is minted.
pub open spec fn mint_checked(max_uses: Option<i64>) -> Result<(), u16> {
    match max_uses {
        Some(max_uses) => if max_uses < 1 {
            Err(UNPROCESSABLE_ENTITY)
        } else {
            Ok(())
        },
        None => Ok(()),
    }
}

/// A token may be minted: a cap on its uses is a positive number.
pub fn check_mint(request: &MintEnrollmentTokenRequest) -> (r: Result<(), u16>)
    ensures
        r == mint_checked(request.max_uses),
{
    match request.max_uses {
        Some(max_uses) => if max_uses < 1 {
            Err(UNPROCESSABLE_ENTITY)
        } else {
            Ok(())
        },
        None => Ok(()),
    }
}

/// A token that is to be minted: it is, only when the request passes its
/// check.
pub fn begin_mint(request: MintEnrollmentTokenRequest) -> (r: RouteStep<
    MintEnrollmentTokenRequest,
>)
    ensures
        r == guarded(mint_checked(request.max_uses), request),
{
    guard(check_mint(&request), request)
}

/// Mints a token that was checked.
pub fn mint_enrollment_token(stored: Result<(EnrollmentToken, String), StoreError>) -> (r: Result<
    (u16, MintEnrollmentTokenResponse),
    u16,
>)
    ensures
        r == match stored {
            Ok((token, secret)) => Ok::<(u16, MintEnrollmentTokenResponse), u16>(
                (CREATED, MintEnrollmentTokenResponse { token, secret }),
            ),
            Err(_) => Err(INTERNAL_SERVER_ERROR),
        },
{
    match stored {
        Ok((token, secret)) => Ok((CREATED, MintEnrollmentTokenResponse { token, secret })),
        Err(_) => Err(INTERNAL_SERVER_ERROR),
    }
}

/// The tokens of the caller's workspace (no secrets), in the store's order.
pub fn list_enrollment_tokens(
    workspace: &WorkspaceId,
    stored: Result<Vec<EnrollmentToken>, StoreError>,
) -> (r: Result<Vec<EnrollmentToken>, u16>)
    ensures
        match stored {
            Ok(tokens) => r matches Ok(listed) && listed@ == scoped(tokens@, workspace@),
            Err(_) => r matches Err(status) && status == INTERNAL_SERVER_ERROR,
        },
{
    match answer(stored) {
        Ok(tokens) => Ok(own_items(tokens, workspace)),
        Err(status) => Err(status),
    }
}

/// Revokes a token; one that does not exist is a 404, not a silent success.
pub fn revoke_enrollment_token(stored: Result<Option<EnrollmentToken>, StoreError>) -> (r: Result<
    EnrollmentToken,
    u16,
>)
    ensures
        r == answered_if_present(stored, NOT_FOUND),
{
    answer_if_present(stored, NOT_FOUND)
}

/// Exchanges a token for a host; an unknown, revoked or exhausted token is a
/// 401.
pub fn exchange_enrollment_token(stored: Result<Option<(Host, String)>, StoreError>) -> (r: Result<
    (u16, EnrollHostResponse),
    u16,
>)
    ensures
        r == match stored {
            Ok(Some((host, token))) => Ok::<(u16, EnrollHostResponse), u16>(
                (CREATED, EnrollHostResponse { host, token }),
            ),
            Ok(None) => Err(UNAUTHORIZED),
            Err(_) => Err(INTERNAL_SERVER_ERROR),
        },
{
    match answer_if_present(stored, UNAUTHORIZED) {
        Ok((host, token)) => Ok((CREATED, EnrollHostResponse { host, token })),
        Err(status) => Err(status),
    }
}

/// A token is minted unless its cap is less than one, which is a 422.
pub proof fn caps_are_positive(
    request: MintEnrollmentTokenRequest,
    step: RouteStep<MintEnrollmentTokenRequest>,
)
    requires
        call_ensures(begin_mint, (request,), step),
    ensures
        request.max_uses is None ==> step == RouteStep::Act(request),
        request.max_uses matches Some(n) ==> (n >= 1 ==> step == RouteStep::Act(request)) && (n
            < 1 ==> step == RouteStep::<MintEnrollmentTokenRequest>::Refuse(422)),
{
}

/// What the token routes answer: a new token with its secret, the workspace's
/// own tokens in the store's order, a revoked token or a 404, and an enrolled
/// host with its own token or a 401; a 500 when the store fails.
pub proof fn tokens_are_answered(
    minted: Result<(EnrollmentToken, String), StoreError>,
    mint: Result<(u16, MintEnrollmentTokenResponse), u16>,
    workspace: &WorkspaceId,
    stored: Result<Vec<EnrollmentToken>, StoreError>,
    listed: Result<Vec<EnrollmentToken>, u16>,
    revoked: Result<Option<EnrollmentToken>, StoreError>,
    revoke: Result<EnrollmentToken, u16>,
    exchanged: Result<Option<(Host, String)>, StoreError>,
    exchange: Result<(u16, EnrollHostResponse), u16>,
)
    requires
        call_ensures(mint_enrollment_token, (minted,), mint),
        call_ensures(list_enrollment_tokens, (workspace, stored), listed),
        call_ensures(revoke_enrollment_token, (revoked,), revoke),
        call_ensures(exchange_enrollment_token, (exchanged,), exchange),
    ensures
        match minted {
            Ok((token, secret)) => mint matches Ok((status, body)) && status == 201 && body.token
                == token && body.secret == secret,
            Err(_) => mint matches Err(status) && status == 500,
        },
        match stored {
            Ok(tokens) => listed matches Ok(own) && own@ == tokens@.filter(
                |token: EnrollmentToken| token.workspace_id@ == workspace@,
            ),
            Err(_) => listed matches Err(status) && status == 500,
        },
        match revoked {
            Ok(Some(token)) => revoke == Ok::<EnrollmentToken, u16>(token),
            Ok(None) => revoke matches Err(status) && status == 404,
            Err(_) => revoke matches Err(status) && status == 500,
        },
        match exchanged {
            Ok(Some((host, token))) => exchange matches Ok((status, body)) && status == 201
                && body.host == host && body.token == token,
            Ok(None) => exchange matches Err(status) && status == 401,
            Err(_) => exchange matches Err(status) && status == 500,
        },
{
    let own = |token: EnrollmentToken| token.workspace_id@ == workspace@;
    assert(own =~= (|item: EnrollmentToken| item.scope() == workspace@));
}

} // verus!
