use authcore::claims::Claims;
use authcore::claims::TokenKind;
use authcore::claims::UserId;
use authcore::token::TokenConfig;
use authcore::token::TokenError;
use authcore::token::issue_access_token;
use authcore::token::issue_refresh_token;
use authcore::token::verify;

fn config() -> TokenConfig {
    TokenConfig {
        secret: String::from("secret"),
        access_ttl: 3600,
        refresh_ttl: 86400,
    }
}

const NOW: u64 = 1700000000;

#[test]
fn access_round_trip_preserves_subject_and_kind() {
    let cfg = config();
    let id = UserId { value: 0x00d1_5ea5_e000_0000_0000_0000_0000_0042 };
    let token = issue_access_token(&cfg, id, NOW);
    let claims = verify(&cfg, token.as_str(), NOW).expect("freshly issued token must verify");
    assert_eq!(
        claims,
        Claims { sub: id, kind: TokenKind::Access, iat: NOW, exp: NOW + 3600 }
    );
}

#[test]
fn refresh_round_trip_yields_refresh_kind() {
    let cfg = config();
    let id = UserId { value: 7 };
    let token = issue_refresh_token(&cfg, id, NOW);
    let claims = verify(&cfg, token.as_str(), NOW).expect("freshly issued token must verify");
    assert_eq!(claims.kind, TokenKind::Refresh);
    assert_eq!(claims.sub, id);
    assert_eq!(claims.exp, NOW + 86400);
}

#[test]
fn known_token_vector() {
    let cfg = config();
    let id = UserId { value: 1 };
    let token = issue_access_token(&cfg, id, NOW);
    assert_eq!(
        token,
        "HS256.{\"sub\":\"00000000000000000000000000000001\",\"kind\":\"access\",\
         \"iat\":00000000001700000000,\"exp\":00000000001700003600}.\
         ad358599653106f8ba39132fda4ee72d733a59cbacb8a42c63c1848dcb6d6ab1"
    );
}

#[test]
fn mutating_any_signature_character_is_rejected() {
    let cfg = config();
    let id = UserId { value: 99 };
    let token = issue_access_token(&cfg, id, NOW);
    let chars: Vec<char> = token.chars().collect();
    let sig_start = chars.len() - 64;
    for i in sig_start..chars.len() {
        let mut mutated = chars.clone();
        mutated[i] = if mutated[i] == '0' { '1' } else { '0' };
        if mutated[i] == chars[i] {
            continue;
        }
        let bad: String = mutated.into_iter().collect();
        assert_eq!(
            verify(&cfg, bad.as_str(), NOW),
            Err(TokenError::InvalidSignature),
            "mutation at {} must invalidate the signature",
            i
        );
    }
}

#[test]
fn wrong_secret_is_an_invalid_signature() {
    let cfg = config();
    let other = TokenConfig {
        secret: String::from("another-secret"),
        access_ttl: 3600,
        refresh_ttl: 86400,
    };
    let token = issue_access_token(&cfg, UserId { value: 5 }, NOW);
    assert_eq!(
        verify(&other, token.as_str(), NOW),
        Err(TokenError::InvalidSignature)
    );
}

#[test]
fn expiry_boundary() {
    let cfg = config();
    let token = issue_access_token(&cfg, UserId { value: 3 }, NOW);
    assert!(verify(&cfg, token.as_str(), NOW + 3600 - 1).is_ok());
    assert!(verify(&cfg, token.as_str(), NOW + 3600).is_ok());
    assert_eq!(
        verify(&cfg, token.as_str(), NOW + 3600 + 1),
        Err(TokenError::Expired)
    );
}

#[test]
fn malformed_tokens_are_rejected() {
    let cfg = config();
    assert_eq!(verify(&cfg, "", NOW), Err(TokenError::Malformed));
    assert_eq!(verify(&cfg, "garbage", NOW), Err(TokenError::Malformed));
    let long_no_dots = "x".repeat(200);
    assert_eq!(
        verify(&cfg, long_no_dots.as_str(), NOW),
        Err(TokenError::Malformed)
    );
    let token = issue_access_token(&cfg, UserId { value: 3 }, NOW);
    let truncated = &token[..token.len() - 1];
    assert_eq!(verify(&cfg, truncated, NOW), Err(TokenError::Malformed));
    let wrong_header = token.replacen("HS256", "HS255", 1);
    assert_eq!(
        verify(&cfg, wrong_header.as_str(), NOW),
        Err(TokenError::Malformed)
    );
}

#[test]
fn payload_tampering_changes_the_verdict() {
    let cfg = config();
    let token = issue_access_token(&cfg, UserId { value: 0xabc }, NOW);
    // Turn the subject's last hexadecimal digit from 'c' into 'd'
    // without touching the signature: the signature no longer matches.
    let tampered = token.replacen("0abc\"", "0abd\"", 1);
    assert_ne!(tampered, token);
    assert_eq!(
        verify(&cfg, tampered.as_str(), NOW),
        Err(TokenError::InvalidSignature)
    );
}
