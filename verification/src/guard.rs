//! The auth guard: decides, for a protected route, whether a request
//! may proceed.  Per request it walks token extraction, verification,
//! and role-based authorization, and either produces the identity to
//! attach or the first rejection.  The role lookup is handed in by the
//! caller, so every decision here is pure and checked.

use vstd::prelude::*;

use crate::claims::Claims;
use crate::claims::TokenKind;
use crate::claims::UserId;
use crate::codec::match_lit;
use crate::token::TokenConfig;
use crate::token::TokenError;
use crate::token::spec_verify;
use crate::token::verify;

verus! {

/// A user's role.
#[derive(Clone, Copy, Debug, PartialEq, Eq, Structural)]
pub enum Role {
    Admin,
    User,
}

/// The authenticated identity attached to a request after the guard
/// lets it pass; it lives only for that request.
#[derive(Clone, Copy, Debug, PartialEq, Eq, Structural)]
pub struct Identity {
    pub sub: UserId,
    pub role: Role,
}

/// Why the guard rejected a request.
#[derive(Clone, Copy, Debug, PartialEq, Eq, Structural)]
pub enum AuthError {
    /// No authorization header, or not a well-formed bearer header.
    MissingToken,
    /// The bearer token cannot be decoded.
    Malformed,
    /// The bearer token's signature does not match.
    InvalidSignature,
    /// The bearer token has expired.
    Expired,
    /// The identity is established but not acceptable for the route.
    Forbidden,
    /// The token's subject references no existing user.
    UserNotFound,
    /// The role lookup failed for reasons unrelated to auth.
    InternalError,
}

/// What a protected route demands: the token kind it accepts, and
/// whether it is restricted to administrators.
#[derive(Clone, Copy, Debug, PartialEq, Eq, Structural)]
pub struct RoutePolicy {
    pub admin_only: bool,
    pub kind: TokenKind,
}

/// What the persistence layer answered when the guard looked up the
/// subject's role.
#[derive(Clone, Copy, Debug, PartialEq, Eq, Structural)]
pub enum RoleLookup {
    Found(Role),
    NotFound,
    Failed,
}

/// The HTTP status for a rejection: 403 for `Forbidden`, 500 for
/// `InternalError`, 401 for every token problem.
pub open spec fn spec_status(e: AuthError) -> u16 {
    match e {
        AuthError::Forbidden => 403,
        AuthError::InternalError => 500,
        _ => 401,
    }
}

/// The machine-readable code of a rejection.
pub open spec fn code_chars(e: AuthError) -> Seq<char> {
    match e {
        AuthError::MissingToken => "MissingToken"@,
        AuthError::Malformed => "Malformed"@,
        AuthError::InvalidSignature => "InvalidSignature"@,
        AuthError::Expired => "Expired"@,
        AuthError::Forbidden => "Forbidden"@,
        AuthError::UserNotFound => "UserNotFound"@,
        AuthError::InternalError => "InternalError"@,
    }
}

impl AuthError {
    /// The HTTP status this rejection is reported with.
    pub fn status_code(&self) -> (s: u16)
        ensures
            s == spec_status(*self),
    {
        match *self {
            AuthError::Forbidden => 403,
            AuthError::InternalError => 500,
            _ => 401,
        }
    }

    /// The machine-readable code this rejection is reported with.
    pub fn code(&self) -> (s: &'static str)
        ensures
            s@ == code_chars(*self),
    {
        match *self {
            AuthError::MissingToken => "MissingToken",
            AuthError::Malformed => "Malformed",
            AuthError::InvalidSignature => "InvalidSignature",
            AuthError::Expired => "Expired",
            AuthError::Forbidden => "Forbidden",
            AuthError::UserNotFound => "UserNotFound",
            AuthError::InternalError => "InternalError",
        }
    }
}

/// The view of an optional header value.
pub open spec fn header_view(header: Option<&str>) -> Option<Seq<char>> {
    match header {
        Option::Some(h) => Option::Some(h@),
        Option::None => Option::None,
    }
}

/// The token inside a `Bearer` authorization header, or
/// `MissingToken` when the header is absent or not of that shape.
pub open spec fn spec_extract_bearer(header: Option<Seq<char>>) -> Result<Seq<char>, AuthError> {
    match header {
        Option::None => Err(AuthError::MissingToken),
        Option::Some(h) => {
            if h.len() >= 7 && h.subrange(0, 7) == "Bearer "@ {
                Ok(h.subrange(7, h.len() as int))
            } else {
                Err(AuthError::MissingToken)
            }
        },
    }
}

/// Extracts the bearer token from an authorization header.
pub fn extract_bearer<'a>(header: Option<&'a str>) -> (r: Result<&'a str, AuthError>)
    ensures
        match r {
            Ok(t) => spec_extract_bearer(header_view(header)) == Ok::<Seq<char>, AuthError>(t@),
            Err(e) => spec_extract_bearer(header_view(header)) == Err::<Seq<char>, AuthError>(e),
        },
{
    proof {
        reveal_strlit("Bearer ");
    }
    match header {
        None => Err(AuthError::MissingToken),
        Some(h) => {
            let n = h.unicode_len();
            if n < 7 {
                return Err(AuthError::MissingToken);
            }
            if !match_lit(h, 0, "Bearer ") {
                return Err(AuthError::MissingToken);
            }
            Ok(h.substring_char(7, n))
        },
    }
}

/// The guard's rejection for a failed token verification.
pub open spec fn token_reject(e: TokenError) -> AuthError {
    match e {
        TokenError::Malformed => AuthError::Malformed,
        TokenError::InvalidSignature => AuthError::InvalidSignature,
        TokenError::Expired => AuthError::Expired,
    }
}

/// The first two guard steps: extract the bearer token and verify it;
/// `Unauthenticated` to `Verified`, or the step's rejection.
pub open spec fn spec_authenticate(
    secret: Seq<char>,
    header: Option<Seq<char>>,
    now: u64,
) -> Result<Claims, AuthError> {
    match spec_extract_bearer(header) {
        Err(e) => Err(e),
        Ok(tok) => match spec_verify(secret, tok, now) {
            Ok(c) => Ok(c),
            Err(e) => Err(token_reject(e)),
        },
    }
}

/// Extracts and verifies the bearer token of a request at time `now`.
pub fn authenticate(cfg: &TokenConfig, header: Option<&str>, now: u64) -> (r: Result<
    Claims,
    AuthError,
>)
    ensures
        r == spec_authenticate(cfg.secret@, header_view(header), now),
{
    let tok = match extract_bearer(header) {
        Ok(t) => t,
        Err(e) => {
            return Err(e);
        },
    };
    match verify(cfg, tok, now) {
        Ok(c) => Ok(c),
        Err(TokenError::Malformed) => Err(AuthError::Malformed),
        Err(TokenError::InvalidSignature) => Err(AuthError::InvalidSignature),
        Err(TokenError::Expired) => Err(AuthError::Expired),
    }
}

/// The last guard step: the token kind must be the one the route
/// accepts, and an admin-only route demands the `Admin` role;
/// `Verified` to `Authorized`, or the step's rejection.
pub open spec fn spec_authorize(c: Claims, policy: RoutePolicy, lookup: RoleLookup) -> Result<
    Identity,
    AuthError,
> {
    if c.kind != policy.kind {
        Err(AuthError::Forbidden)
    } else {
        match lookup {
            RoleLookup::Failed => Err(AuthError::InternalError),
            RoleLookup::NotFound => Err(AuthError::UserNotFound),
            RoleLookup::Found(role) => {
                if policy.admin_only && role != Role::Admin {
                    Err(AuthError::Forbidden)
                } else {
                    Ok(Identity { sub: c.sub, role })
                }
            },
        }
    }
}

/// Decides authorization for verified claims, given the route's
/// policy and the persistence layer's answer about the subject's
/// role.
pub fn authorize(c: &Claims, policy: &RoutePolicy, lookup: RoleLookup) -> (r: Result<
    Identity,
    AuthError,
>)
    ensures
        r == spec_authorize(*c, *policy, lookup),
{
    if !kind_eq(c.kind, policy.kind) {
        return Err(AuthError::Forbidden);
    }
    match lookup {
        RoleLookup::Failed => Err(AuthError::InternalError),
        RoleLookup::NotFound => Err(AuthError::UserNotFound),
        RoleLookup::Found(role) => {
            if policy.admin_only && !matches!(role, Role::Admin) {
                Err(AuthError::Forbidden)
            } else {
                Ok(Identity { sub: c.sub, role })
            }
        },
    }
}

/// The two kinds are the same.
fn kind_eq(a: TokenKind, b: TokenKind) -> (r: bool)
    ensures
        r == (a == b),
{
    match (a, b) {
        (TokenKind::Access, TokenKind::Access) => true,
        (TokenKind::Refresh, TokenKind::Refresh) => true,
        _ => false,
    }
}

/// The whole per-request walk: `Unauthenticated`, `TokenExtracted`,
/// `Verified`, `Authorized`, or the first rejection on the way.
pub open spec fn spec_guard(
    secret: Seq<char>,
    header: Option<Seq<char>>,
    now: u64,
    policy: RoutePolicy,
    lookup: RoleLookup,
) -> Result<Identity, AuthError> {
    match spec_authenticate(secret, header, now) {
        Err(e) => Err(e),
        Ok(c) => spec_authorize(c, policy, lookup),
    }
}

/// Runs the guard for one request, with the role lookup's answer
/// handed in by the caller.
pub fn guard_request(
    cfg: &TokenConfig,
    header: Option<&str>,
    now: u64,
    policy: &RoutePolicy,
    lookup: RoleLookup,
) -> (r: Result<Identity, AuthError>)
    ensures
        r == spec_guard(cfg.secret@, header_view(header), now, *policy, lookup),
{
    match authenticate(cfg, header, now) {
        Err(e) => Err(e),
        Ok(c) => authorize(&c, policy, lookup),
    }
}

/// A request without an authorization header is rejected with
/// `MissingToken`, reported as status 401.
pub proof fn lemma_missing_header(
    secret: Seq<char>,
    now: u64,
    policy: RoutePolicy,
    lookup: RoleLookup,
)
    ensures
        spec_guard(secret, Option::None, now, policy, lookup) == Err::<Identity, AuthError>(
            AuthError::MissingToken,
        ),
        spec_status(AuthError::MissingToken) == 401,
{
}

/// A valid token of a non-admin user never passes an admin-only
/// route: the guard answers `Forbidden`, reported as status 403.
pub proof fn lemma_non_admin_forbidden(
    secret: Seq<char>,
    header: Option<Seq<char>>,
    now: u64,
    policy: RoutePolicy,
    role: Role,
    c: Claims,
)
    requires
        spec_authenticate(secret, header, now) == Ok::<Claims, AuthError>(c),
        policy.admin_only,
        role != Role::Admin,
    ensures
        spec_guard(secret, header, now, policy, RoleLookup::Found(role)) == Err::<
            Identity,
            AuthError,
        >(AuthError::Forbidden),
        spec_status(AuthError::Forbidden) == 403,
{
}

/// A refresh token never authorizes a route that accepts access
/// tokens: whatever the role lookup answers, the guard answers
/// `Forbidden`.
pub proof fn lemma_refresh_on_access_route(c: Claims, policy: RoutePolicy, lookup: RoleLookup)
    requires
        c.kind == TokenKind::Refresh,
        policy.kind == TokenKind::Access,
    ensures
        spec_authorize(c, policy, lookup) == Err::<Identity, AuthError>(AuthError::Forbidden),
{
}

} // verus!
