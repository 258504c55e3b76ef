//! The token service: mints and verifies signed, time-bounded tokens.
//!
//! A token is `header.payload.signature`: a fixed header naming the
//! signing scheme, the claims payload, and the lower-case hexadecimal
//! HMAC-SHA256 tag of `header.payload` under the configured secret.

use vstd::prelude::*;

use crate::claims::Claims;
use crate::claims::TokenKind;
use crate::claims::UserId;
use crate::claims::lemma_parse_render;
use crate::claims::parse_payload;
use crate::claims::payload_chars;
use crate::claims::render_payload;
use crate::claims::spec_parse_payload;
use crate::claims::lemma_payload_len;
use crate::claims::spec_parse_kind;
use crate::claims::kind_chars;
use crate::claims::lemma_fragment_lens;
use crate::codec::fixed_chars;
use crate::codec::fixed_enc;
use crate::codec::lemma_fixed_chars_val;
use crate::codec::lemma_pow16_32;
use crate::codec::lemma_seq_val_bound;
use crate::codec::is_digit;
use crate::codec::match_lit;
use crate::codec::str_eq;

verus! {

/// The token service's configuration: the signing secret and the two
/// token lifetimes, in seconds.
pub struct TokenConfig {
    pub secret: String,
    pub access_ttl: u64,
    pub refresh_ttl: u64,
}

impl TokenConfig {
    /// Both lifetimes are positive, so expiry always falls strictly
    /// after issuance.
    pub open spec fn wf(self) -> bool {
        &&& self.access_ttl >= 1
        &&& self.refresh_ttl >= 1
    }
}

/// Why verification rejected a token.
#[derive(Clone, Copy, Debug, PartialEq, Eq, Structural)]
pub enum TokenError {
    /// The token is not the shape the service produces.
    Malformed,
    /// The signature segment is not the tag of the first two segments.
    InvalidSignature,
    /// The token's expiry lies before the given time.
    Expired,
}

/// The tag HMAC-SHA256 computes for this key and message, as the two
/// 128-bit big-endian halves of its 32 bytes; it depends on the two
/// arguments alone.
pub uninterp spec fn mac_of(key: Seq<char>, msg: Seq<char>) -> (u128, u128);

/// Relies on `hmac::Hmac<sha2::Sha256>`: the 32-byte tag is a pure
/// function of key and message, and `new_from_slice` accepts a key of
/// any length, so the call cannot fail.
#[verifier::external_body]
fn hmac_sha256(key: &str, msg: &str) -> (r: (u128, u128))
    ensures
        r == mac_of(key@, msg@),
{
    let mut m = <hmac::Hmac<sha2::Sha256> as hmac::Mac>::new_from_slice(key.as_bytes()).unwrap();
    hmac::Mac::update(&mut m, msg.as_bytes());
    let tag = hmac::Mac::finalize(m).into_bytes();
    let hi = u128::from_be_bytes(tag[0..16].try_into().unwrap());
    let lo = u128::from_be_bytes(tag[16..32].try_into().unwrap());
    (hi, lo)
}

/// The tag of `msg` under `key`, rendered as 64 lower-case hexadecimal
/// digits.
pub open spec fn tag_chars(key: Seq<char>, msg: Seq<char>) -> Seq<char> {
    fixed_chars(16, mac_of(key, msg).0 as int, 32) + fixed_chars(16, mac_of(key, msg).1 as int, 32)
}

/// A rendered tag is always 64 characters.
pub proof fn lemma_tag_len(key: Seq<char>, msg: Seq<char>)
    ensures
        tag_chars(key, msg).len() == 64,
{
    lemma_pow16_32();
    lemma_fixed_chars_val(16, mac_of(key, msg).0 as int, 32);
    lemma_fixed_chars_val(16, mac_of(key, msg).1 as int, 32);
}

/// Computes the rendered tag of `msg` under `key`.
fn tag_enc(key: &str, msg: &str) -> (s: String)
    ensures
        s@ == tag_chars(key@, msg@),
{
    proof {
        lemma_pow16_32();
    }
    let (hi, lo) = hmac_sha256(key, msg);
    let mut s = fixed_enc(16, hi, 32);
    let lo_s = fixed_enc(16, lo, 32);
    s.append(lo_s.as_str());
    proof {
        assert(s@ =~= tag_chars(key@, msg@));
    }
    s
}

/// The fixed header segment.
pub open spec fn header_chars() -> Seq<char> {
    "HS256"@
}

/// The text the signature is computed over: `header.payload`.
pub open spec fn signing_input_chars(c: Claims) -> Seq<char> {
    header_chars() + seq!['.'] + payload_chars(c)
}

/// The signature segment of a token for these claims under this
/// secret.
pub open spec fn signature_chars(secret: Seq<char>, c: Claims) -> Seq<char> {
    tag_chars(secret, signing_input_chars(c))
}

/// The complete token text for these claims under this secret.
pub open spec fn spec_issue(secret: Seq<char>, c: Claims) -> Seq<char> {
    signing_input_chars(c) + seq!['.'] + signature_chars(secret, c)
}

/// What verification at time `now` answers for any token text: the
/// claims when the token is exactly a signed, well-formed, unexpired
/// token under this secret, and the first applicable rejection
/// otherwise (shape, then signature, then expiry).
pub open spec fn spec_verify(secret: Seq<char>, t: Seq<char>, now: u64) -> Result<
    Claims,
    TokenError,
> {
    if t.len() < 71 {
        Err(TokenError::Malformed)
    } else {
        let silen = t.len() - 65;
        if t.subrange(0, 5) == header_chars() && t[5] == '.' && t[silen as int] == '.' {
            match spec_parse_payload(t.subrange(6, silen as int)) {
                Option::None => Err(TokenError::Malformed),
                Option::Some(c) => {
                    if t.subrange(silen + 1, t.len() as int) == tag_chars(
                        secret,
                        t.subrange(0, silen as int),
                    ) {
                        if now > c.exp {
                            Err(TokenError::Expired)
                        } else {
                            Ok(c)
                        }
                    } else {
                        Err(TokenError::InvalidSignature)
                    }
                },
            }
        } else {
            Err(TokenError::Malformed)
        }
    }
}

/// Mints the token for these claims under this secret.
pub fn issue_token(cfg: &TokenConfig, c: Claims) -> (t: String)
    ensures
        t@ == spec_issue(cfg.secret@, c),
{
    let mut t = String::from_str("HS256");
    t.append(".");
    let payload = render_payload(&c);
    t.append(payload.as_str());
    proof {
        reveal_strlit(".");
        assert(t@ =~= signing_input_chars(c));
    }
    let sig = tag_enc(cfg.secret.as_str(), t.as_str());
    let mut out = t;
    out.append(".");
    out.append(sig.as_str());
    proof {
        assert(out@ =~= spec_issue(cfg.secret@, c));
    }
    out
}

/// Issues an access token for `user_id`, valid from `now` for the
/// configured access lifetime.
pub fn issue_access_token(cfg: &TokenConfig, user_id: UserId, now: u64) -> (t: String)
    requires
        cfg.wf(),
        now + cfg.access_ttl <= u64::MAX,
    ensures
        t@ == spec_issue(
            cfg.secret@,
            Claims {
                sub: user_id,
                kind: TokenKind::Access,
                iat: now,
                exp: (now + cfg.access_ttl) as u64,
            },
        ),
{
    issue_token(
        cfg,
        Claims { sub: user_id, kind: TokenKind::Access, iat: now, exp: now + cfg.access_ttl },
    )
}

/// Issues a refresh token for `user_id`, valid from `now` for the
/// configured refresh lifetime.
pub fn issue_refresh_token(cfg: &TokenConfig, user_id: UserId, now: u64) -> (t: String)
    requires
        cfg.wf(),
        now + cfg.refresh_ttl <= u64::MAX,
    ensures
        t@ == spec_issue(
            cfg.secret@,
            Claims {
                sub: user_id,
                kind: TokenKind::Refresh,
                iat: now,
                exp: (now + cfg.refresh_ttl) as u64,
            },
        ),
{
    issue_token(
        cfg,
        Claims { sub: user_id, kind: TokenKind::Refresh, iat: now, exp: now + cfg.refresh_ttl },
    )
}

/// Verifies a token at time `now`; the result is exactly what
/// `spec_verify` says of the token text.
pub fn verify(cfg: &TokenConfig, token: &str, now: u64) -> (r: Result<Claims, TokenError>)
    ensures
        r == spec_verify(cfg.secret@, token@, now),
{
    proof {
        reveal_strlit("HS256");
    }
    let n = token.unicode_len();
    if n < 71 {
        return Err(TokenError::Malformed);
    }
    let silen = n - 65;
    if !match_lit(token, 0, "HS256") {
        return Err(TokenError::Malformed);
    }
    if token.get_char(5) != '.' {
        return Err(TokenError::Malformed);
    }
    if token.get_char(silen) != '.' {
        return Err(TokenError::Malformed);
    }
    let payload = token.substring_char(6, silen);
    let c = match parse_payload(payload) {
        Some(c) => c,
        None => {
            return Err(TokenError::Malformed);
        },
    };
    let si = token.substring_char(0, silen);
    let expect = tag_enc(cfg.secret.as_str(), si);
    let sig = token.substring_char(silen + 1, n);
    if !str_eq(sig, expect.as_str()) {
        return Err(TokenError::InvalidSignature);
    }
    if now > c.exp {
        return Err(TokenError::Expired);
    }
    Ok(c)
}

/// Verifying a token this service issued answers the issued claims,
/// or `Expired` exactly when the check happens after the expiry.
pub proof fn lemma_verify_of_issued(secret: Seq<char>, c: Claims, now: u64)
    requires
        c.wf(),
    ensures
        spec_verify(secret, spec_issue(secret, c), now) == if now > c.exp {
            Err::<Claims, TokenError>(TokenError::Expired)
        } else {
            Ok::<Claims, TokenError>(c)
        },
{
    reveal_strlit("HS256");
    lemma_payload_len(c);
    let p = payload_chars(c);
    let si = signing_input_chars(c);
    let sig = signature_chars(secret, c);
    let t = spec_issue(secret, c);
    lemma_tag_len(secret, si);
    assert(si.len() == 6 + p.len());
    assert(t.len() == si.len() + 65);
    assert(t.len() >= 71);
    let silen = (t.len() - 65) as int;
    assert(silen == si.len());
    assert(t.subrange(0, 5) =~= header_chars());
    assert(t[5] == '.');
    assert(t[silen] == '.');
    assert(t.subrange(6, silen) =~= p);
    lemma_parse_render(c);
    assert(t.subrange(0, silen) =~= si);
    assert(t.subrange(silen + 1, t.len() as int) =~= sig);
}

/// Whatever token text verification accepts, the claims it answers
/// are well formed (expiry strictly after issuance) and not yet
/// expired at the time of the check.
pub proof fn lemma_verified_claims_wf(secret: Seq<char>, t: Seq<char>, now: u64, c: Claims)
    requires
        spec_verify(secret, t, now) == Ok::<Claims, TokenError>(c),
    ensures
        c.wf(),
        now <= c.exp,
{
    let silen = (t.len() - 65) as int;
    let p = t.subrange(6, silen);
    assert(spec_parse_payload(p) == Some(c));
    lemma_fragment_lens();
    let kind = if p.len() == 112 {
        TokenKind::Access
    } else {
        TokenKind::Refresh
    };
    let k = kind_chars(kind).len() as int;
    assert(spec_parse_kind(p, kind) == Some(c));
    let iat_s = p.subrange(58 + k, 78 + k);
    let exp_s = p.subrange(85 + k, 105 + k);
    assert forall|i: int| 0 <= i < iat_s.len() implies is_digit(10, #[trigger] iat_s[i]) by {
        assert(iat_s[i] == p[58 + k + i]);
    };
    assert forall|i: int| 0 <= i < exp_s.len() implies is_digit(10, #[trigger] exp_s[i]) by {
        assert(exp_s[i] == p[85 + k + i]);
    };
    lemma_seq_val_bound(10, iat_s);
    lemma_seq_val_bound(10, exp_s);
}

/// Issuing an access token for a user and verifying it at once yields
/// claims whose subject is that user and whose kind is `Access`.
pub proof fn lemma_access_round_trip(secret: Seq<char>, user_id: UserId, now: u64, ttl: u64)
    requires
        1 <= ttl,
        now + ttl <= u64::MAX,
    ensures
        ({
            let c = Claims {
                sub: user_id,
                kind: TokenKind::Access,
                iat: now,
                exp: (now + ttl) as u64,
            };
            spec_verify(secret, spec_issue(secret, c), now) == Ok::<Claims, TokenError>(c)
        }),
{
    let c = Claims { sub: user_id, kind: TokenKind::Access, iat: now, exp: (now + ttl) as u64 };
    lemma_verify_of_issued(secret, c, now);
}

/// Issuing a refresh token and verifying it at once yields claims of
/// kind `Refresh`.
pub proof fn lemma_refresh_round_trip(secret: Seq<char>, user_id: UserId, now: u64, ttl: u64)
    requires
        1 <= ttl,
        now + ttl <= u64::MAX,
    ensures
        ({
            let c = Claims {
                sub: user_id,
                kind: TokenKind::Refresh,
                iat: now,
                exp: (now + ttl) as u64,
            };
            spec_verify(secret, spec_issue(secret, c), now) == Ok::<Claims, TokenError>(c)
        }),
{
    let c = Claims { sub: user_id, kind: TokenKind::Refresh, iat: now, exp: (now + ttl) as u64 };
    lemma_verify_of_issued(secret, c, now);
}

/// A token issued with lifetime `ttl` still verifies one second before
/// `iat + ttl`, and is rejected as `Expired` one second after it.
pub proof fn lemma_expiry_boundary(secret: Seq<char>, c: Claims, ttl: u64)
    requires
        c.wf(),
        c.exp == c.iat + ttl,
        c.exp < u64::MAX,
    ensures
        spec_verify(secret, spec_issue(secret, c), (c.iat + ttl - 1) as u64) == Ok::<
            Claims,
            TokenError,
        >(c),
        spec_verify(secret, spec_issue(secret, c), (c.iat + ttl + 1) as u64) == Err::<
            Claims,
            TokenError,
        >(TokenError::Expired),
{
    lemma_verify_of_issued(secret, c, (c.iat + ttl - 1) as u64);
    lemma_verify_of_issued(secret, c, (c.iat + ttl + 1) as u64);
}

/// Changing any one character of an issued token's signature segment
/// makes verification fail with `InvalidSignature`, at any time.
pub proof fn lemma_signature_mutation(secret: Seq<char>, c: Claims, now: u64, j: int, ch: char)
    requires
        c.wf(),
        0 <= j < 64,
        ch != signature_chars(secret, c)[j],
    ensures
        spec_verify(
            secret,
            spec_issue(secret, c).update(signing_input_chars(c).len() + 1 + j, ch),
            now,
        ) == Err::<Claims, TokenError>(TokenError::InvalidSignature),
{
    reveal_strlit("HS256");
    lemma_payload_len(c);
    let p = payload_chars(c);
    let si = signing_input_chars(c);
    let sig = signature_chars(secret, c);
    let t = spec_issue(secret, c);
    lemma_tag_len(secret, si);
    let t2 = t.update(si.len() + 1 + j, ch);
    assert(t2.len() == t.len());
    assert(t.len() == si.len() + 65);
    let silen = (t2.len() - 65) as int;
    assert(silen == si.len());
    assert(t2.subrange(0, 5) =~= header_chars());
    assert(t2[5] == '.');
    assert(t2[silen] == '.');
    assert(t2.subrange(6, silen) =~= p);
    lemma_parse_render(c);
    assert(t2.subrange(0, silen) =~= si);
    let sig2 = t2.subrange(silen + 1, t2.len() as int);
    assert(sig2[j] == ch);
    assert(tag_chars(secret, t2.subrange(0, silen)) == sig);
    assert(sig2 != sig) by {
        if sig2 == sig {
            assert(sig2[j] == sig[j]);
        }
    }
}

} // verus!
