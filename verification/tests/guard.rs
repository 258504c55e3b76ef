use authcore::claims::TokenKind;
use authcore::claims::UserId;
use authcore::guard::AuthError;
use authcore::guard::Identity;
use authcore::guard::Role;
use authcore::guard::RoleLookup;
use authcore::guard::RoutePolicy;
use authcore::guard::authenticate;
use authcore::guard::authorize;
use authcore::guard::extract_bearer;
use authcore::guard::guard_request;
use authcore::token::TokenConfig;
use authcore::token::issue_access_token;
use authcore::token::issue_refresh_token;

fn config() -> TokenConfig {
    TokenConfig {
        secret: String::from("secret"),
        access_ttl: 3600,
        refresh_ttl: 86400,
    }
}

const NOW: u64 = 1700000000;

fn protected() -> RoutePolicy {
    RoutePolicy { admin_only: false, kind: TokenKind::Access }
}

fn admin_only() -> RoutePolicy {
    RoutePolicy { admin_only: true, kind: TokenKind::Access }
}

#[test]
fn missing_header_is_401_missing_token() {
    let cfg = config();
    let r = guard_request(&cfg, None, NOW, &protected(), RoleLookup::Found(Role::User));
    assert_eq!(r, Err(AuthError::MissingToken));
    assert_eq!(AuthError::MissingToken.status_code(), 401);
    assert_eq!(AuthError::MissingToken.code(), "MissingToken");
}

#[test]
fn non_bearer_header_is_missing_token() {
    let cfg = config();
    let r = authenticate(&cfg, Some("Token abc"), NOW);
    assert_eq!(r, Err(AuthError::MissingToken));
    assert_eq!(extract_bearer(Some("Bearer")), Err(AuthError::MissingToken));
    assert_eq!(extract_bearer(Some("bearer abc")), Err(AuthError::MissingToken));
    assert_eq!(extract_bearer(Some("Bearer abc")), Ok("abc"));
}

#[test]
fn non_admin_on_admin_route_is_403_forbidden() {
    let cfg = config();
    let id = UserId { value: 11 };
    let token = issue_access_token(&cfg, id, NOW);
    let header = format!("Bearer {}", token);
    let r = guard_request(
        &cfg,
        Some(header.as_str()),
        NOW,
        &admin_only(),
        RoleLookup::Found(Role::User),
    );
    assert_eq!(r, Err(AuthError::Forbidden));
    assert_eq!(AuthError::Forbidden.status_code(), 403);
    assert_eq!(AuthError::Forbidden.code(), "Forbidden");
}

#[test]
fn admin_on_admin_route_passes() {
    let cfg = config();
    let id = UserId { value: 12 };
    let token = issue_access_token(&cfg, id, NOW);
    let header = format!("Bearer {}", token);
    let r = guard_request(
        &cfg,
        Some(header.as_str()),
        NOW,
        &admin_only(),
        RoleLookup::Found(Role::Admin),
    );
    assert_eq!(r, Ok(Identity { sub: id, role: Role::Admin }));
}

#[test]
fn ordinary_user_passes_protected_route() {
    let cfg = config();
    let id = UserId { value: 13 };
    let token = issue_access_token(&cfg, id, NOW);
    let header = format!("Bearer {}", token);
    let r = guard_request(
        &cfg,
        Some(header.as_str()),
        NOW,
        &protected(),
        RoleLookup::Found(Role::User),
    );
    assert_eq!(r, Ok(Identity { sub: id, role: Role::User }));
}

#[test]
fn refresh_token_on_access_route_is_forbidden() {
    let cfg = config();
    let id = UserId { value: 14 };
    let token = issue_refresh_token(&cfg, id, NOW);
    let header = format!("Bearer {}", token);
    let r = guard_request(
        &cfg,
        Some(header.as_str()),
        NOW,
        &protected(),
        RoleLookup::Found(Role::User),
    );
    assert_eq!(r, Err(AuthError::Forbidden));
}

#[test]
fn expired_token_is_401_expired() {
    let cfg = config();
    let token = issue_access_token(&cfg, UserId { value: 15 }, NOW);
    let header = format!("Bearer {}", token);
    let r = authenticate(&cfg, Some(header.as_str()), NOW + 7200);
    assert_eq!(r, Err(AuthError::Expired));
    assert_eq!(AuthError::Expired.status_code(), 401);
    assert_eq!(AuthError::Expired.code(), "Expired");
}

#[test]
fn tampered_bearer_token_is_401_invalid_signature() {
    let cfg = config();
    let token = issue_access_token(&cfg, UserId { value: 21 }, NOW);
    let mut chars: Vec<char> = token.chars().collect();
    let last = chars.len() - 1;
    chars[last] = if chars[last] == '0' { '1' } else { '0' };
    let bad: String = chars.into_iter().collect();
    let header = format!("Bearer {}", bad);
    let r = authenticate(&cfg, Some(header.as_str()), NOW);
    assert_eq!(r, Err(AuthError::InvalidSignature));
    assert_eq!(AuthError::InvalidSignature.status_code(), 401);
    assert_eq!(AuthError::InvalidSignature.code(), "InvalidSignature");
}

#[test]
fn garbage_bearer_token_is_401_malformed() {
    let cfg = config();
    let r = authenticate(&cfg, Some("Bearer not-a-token"), NOW);
    assert_eq!(r, Err(AuthError::Malformed));
    assert_eq!(AuthError::Malformed.status_code(), 401);
    assert_eq!(AuthError::Malformed.code(), "Malformed");
}

#[test]
fn lookup_miss_and_failure_map_to_their_errors() {
    let cfg = config();
    let id = UserId { value: 16 };
    let token = issue_access_token(&cfg, id, NOW);
    let header = format!("Bearer {}", token);
    let miss = guard_request(&cfg, Some(header.as_str()), NOW, &protected(), RoleLookup::NotFound);
    assert_eq!(miss, Err(AuthError::UserNotFound));
    assert_eq!(AuthError::UserNotFound.status_code(), 401);
    assert_eq!(AuthError::UserNotFound.code(), "UserNotFound");
    let failed = guard_request(&cfg, Some(header.as_str()), NOW, &protected(), RoleLookup::Failed);
    assert_eq!(failed, Err(AuthError::InternalError));
    assert_eq!(AuthError::InternalError.status_code(), 500);
    assert_eq!(AuthError::InternalError.code(), "InternalError");
}

#[test]
fn kind_mismatch_is_decided_before_the_lookup() {
    let claims = authcore::claims::Claims {
        sub: UserId { value: 17 },
        kind: TokenKind::Refresh,
        iat: NOW,
        exp: NOW + 60,
    };
    let r = authorize(&claims, &protected(), RoleLookup::Failed);
    assert_eq!(r, Err(AuthError::Forbidden));
}
