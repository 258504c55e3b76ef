//! Token claims: the signed payload identifying a token's subject, its
//! kind, and its validity window, together with the payload's textual
//! form and the proof that rendering and parsing are inverse.

use vstd::prelude::*;

use crate::codec::fixed_chars;
use crate::codec::fixed_dec;
use crate::codec::fixed_enc;
use crate::codec::is_digit;
use crate::codec::lemma_fixed_chars_val;
use crate::codec::lemma_pow10_20;
use crate::codec::lemma_pow16_32;
use crate::codec::match_lit;
use crate::codec::seq_val;

verus! {

/// A user's identifier: the 128 bits of its UUID.
#[derive(Clone, Copy, Debug, PartialEq, Eq, Structural)]
pub struct UserId {
    pub value: u128,
}

/// What a token is for: ordinary API access, or refreshing a session.
#[derive(Clone, Copy, Debug, PartialEq, Eq, Structural)]
pub enum TokenKind {
    Access,
    Refresh,
}

/// The signed payload: subject, kind, issue time and expiry, both in
/// seconds.
#[derive(Clone, Copy, Debug, PartialEq, Eq, Structural)]
pub struct Claims {
    pub sub: UserId,
    pub kind: TokenKind,
    pub iat: u64,
    pub exp: u64,
}

impl Claims {
    /// A claims value is well formed when it expires strictly after it
    /// was issued.
    pub open spec fn wf(self) -> bool {
        self.iat < self.exp
    }
}

/// The payload text for a token kind.
pub open spec fn kind_chars(kind: TokenKind) -> Seq<char> {
    match kind {
        TokenKind::Access => "access"@,
        TokenKind::Refresh => "refresh"@,
    }
}

pub open spec fn lit_sub() -> Seq<char> {
    "{\"sub\":\""@
}

pub open spec fn lit_kind() -> Seq<char> {
    "\",\"kind\":\""@
}

pub open spec fn lit_iat() -> Seq<char> {
    "\",\"iat\":"@
}

pub open spec fn lit_exp() -> Seq<char> {
    ",\"exp\":"@
}

pub open spec fn lit_close() -> Seq<char> {
    "}"@
}

/// The payload text of a claims value: a JSON object whose subject is
/// the 32 hexadecimal digits of the UUID and whose times are 20-digit
/// decimal numbers, every number at a fixed width.
pub open spec fn payload_chars(c: Claims) -> Seq<char> {
    lit_sub() + fixed_chars(16, c.sub.value as int, 32) + lit_kind() + kind_chars(c.kind)
        + lit_iat() + fixed_chars(10, c.iat as int, 20) + lit_exp() + fixed_chars(
        10,
        c.exp as int,
        20,
    ) + lit_close()
}

/// The lengths of the fixed payload fragments.
pub proof fn lemma_fragment_lens()
    ensures
        lit_sub().len() == 8,
        lit_kind().len() == 10,
        lit_iat().len() == 8,
        lit_exp().len() == 7,
        lit_close().len() == 1,
        kind_chars(TokenKind::Access).len() == 6,
        kind_chars(TokenKind::Refresh).len() == 7,
{
    reveal_strlit("{\"sub\":\"");
    reveal_strlit("\",\"kind\":\"");
    reveal_strlit("\",\"iat\":");
    reveal_strlit(",\"exp\":");
    reveal_strlit("}");
    reveal_strlit("access");
    reveal_strlit("refresh");
}

/// Reads a payload text back into a claims value, or `None` when the
/// text is not the rendering of any well-formed claims value whose
/// times fit `u64`.
pub open spec fn spec_parse_payload(p: Seq<char>) -> Option<Claims> {
    if p.len() == 112 {
        spec_parse_kind(p, TokenKind::Access)
    } else if p.len() == 113 {
        spec_parse_kind(p, TokenKind::Refresh)
    } else {
        None
    }
}

/// The kind-specific part of payload parsing; `kind` fixes the offsets
/// of every later field.
pub open spec fn spec_parse_kind(p: Seq<char>, kind: TokenKind) -> Option<Claims> {
    let k = kind_chars(kind).len() as int;
    if {
        &&& p.subrange(0, 8) == lit_sub()
        &&& forall|i: int| 8 <= i < 40 ==> is_digit(16, #[trigger] p[i])
        &&& p.subrange(40, 50) == lit_kind()
        &&& p.subrange(50, 50 + k) == kind_chars(kind)
        &&& p.subrange(50 + k, 58 + k) == lit_iat()
        &&& forall|i: int| 58 + k <= i < 78 + k ==> is_digit(10, #[trigger] p[i])
        &&& p.subrange(78 + k, 85 + k) == lit_exp()
        &&& forall|i: int| 85 + k <= i < 105 + k ==> is_digit(10, #[trigger] p[i])
        &&& p.subrange(105 + k, 106 + k) == lit_close()
    } {
        let sub = seq_val(16, p.subrange(8, 40));
        let iat = seq_val(10, p.subrange(58 + k, 78 + k));
        let exp = seq_val(10, p.subrange(85 + k, 105 + k));
        if iat <= u64::MAX && exp <= u64::MAX && iat < exp {
            Some(
                Claims {
                    sub: UserId { value: sub as u128 },
                    kind,
                    iat: iat as u64,
                    exp: exp as u64,
                },
            )
        } else {
            None
        }
    } else {
        None
    }
}

/// The payload text of the token kind.
pub fn kind_str(kind: TokenKind) -> (s: &'static str)
    ensures
        s@ == kind_chars(kind),
{
    match kind {
        TokenKind::Access => "access",
        TokenKind::Refresh => "refresh",
    }
}

/// Renders the payload text of a claims value.
pub fn render_payload(c: &Claims) -> (s: String)
    ensures
        s@ == payload_chars(*c),
{
    proof {
        lemma_pow16_32();
        lemma_pow10_20();
    }
    let mut s = String::from_str("{\"sub\":\"");
    let sub = fixed_enc(16, c.sub.value, 32);
    s.append(sub.as_str());
    s.append("\",\"kind\":\"");
    s.append(kind_str(c.kind));
    s.append("\",\"iat\":");
    let iat = fixed_enc(10, c.iat as u128, 20);
    s.append(iat.as_str());
    s.append(",\"exp\":");
    let exp = fixed_enc(10, c.exp as u128, 20);
    s.append(exp.as_str());
    s.append("}");
    proof {
        assert(s@ =~= payload_chars(*c));
    }
    s
}

/// Parses a payload text; the result is exactly what
/// `spec_parse_payload` says of it.
pub fn parse_payload(p: &str) -> (r: Option<Claims>)
    ensures
        r == spec_parse_payload(p@),
{
    proof {
        lemma_fragment_lens();
        lemma_pow16_32();
        lemma_pow10_20();
    }
    let n = p.unicode_len();
    let kind: TokenKind = if n == 112 {
        TokenKind::Access
    } else if n == 113 {
        TokenKind::Refresh
    } else {
        return None;
    };
    let k: usize = if n == 112 {
        6
    } else {
        7
    };
    if !match_lit(p, 0, "{\"sub\":\"") {
        return None;
    }
    let sub = match fixed_dec(p, 8, 16, 32) {
        Some(v) => v,
        None => {
            return None;
        },
    };
    if !match_lit(p, 40, "\",\"kind\":\"") {
        return None;
    }
    if !match_lit(p, 50, kind_str(kind)) {
        return None;
    }
    if !match_lit(p, 50 + k, "\",\"iat\":") {
        return None;
    }
    let iat = match fixed_dec(p, 58 + k, 10, 20) {
        Some(v) => v,
        None => {
            return None;
        },
    };
    if !match_lit(p, 78 + k, ",\"exp\":") {
        return None;
    }
    let exp = match fixed_dec(p, 85 + k, 10, 20) {
        Some(v) => v,
        None => {
            return None;
        },
    };
    if !match_lit(p, 105 + k, "}") {
        return None;
    }
    if !(iat <= u64::MAX as u128 && exp <= u64::MAX as u128 && iat < exp) {
        return None;
    }
    Some(
        Claims {
            sub: UserId { value: sub },
            kind,
            iat: iat as u64,
            exp: exp as u64,
        },
    )
}

/// The payload text's length is fixed by the token kind alone.
pub proof fn lemma_payload_len(c: Claims)
    ensures
        payload_chars(c).len() == 106 + kind_chars(c.kind).len(),
        c.kind == TokenKind::Access ==> payload_chars(c).len() == 112,
        c.kind == TokenKind::Refresh ==> payload_chars(c).len() == 113,
{
    lemma_fragment_lens();
    lemma_pow16_32();
    lemma_pow10_20();
    lemma_fixed_chars_val(16, c.sub.value as int, 32);
    lemma_fixed_chars_val(10, c.iat as int, 20);
    lemma_fixed_chars_val(10, c.exp as int, 20);
}

/// Parsing inverts rendering: the payload text of a well-formed claims
/// value reads back as exactly that value.
pub proof fn lemma_parse_render(c: Claims)
    requires
        c.wf(),
    ensures
        spec_parse_payload(payload_chars(c)) == Some(c),
{
    lemma_fragment_lens();
    lemma_pow16_32();
    lemma_pow10_20();
    lemma_fixed_chars_val(16, c.sub.value as int, 32);
    lemma_fixed_chars_val(10, c.iat as int, 20);
    lemma_fixed_chars_val(10, c.exp as int, 20);
    let p = payload_chars(c);
    let k = kind_chars(c.kind).len() as int;
    let hex = fixed_chars(16, c.sub.value as int, 32);
    let iat = fixed_chars(10, c.iat as int, 20);
    let exp = fixed_chars(10, c.exp as int, 20);
    assert(p.len() == 106 + k);
    assert(p.subrange(0, 8) =~= lit_sub());
    assert(p.subrange(8, 40) =~= hex);
    assert(p.subrange(40, 50) =~= lit_kind());
    assert(p.subrange(50, 50 + k) =~= kind_chars(c.kind));
    assert(p.subrange(50 + k, 58 + k) =~= lit_iat());
    assert(p.subrange(58 + k, 78 + k) =~= iat);
    assert(p.subrange(78 + k, 85 + k) =~= lit_exp());
    assert(p.subrange(85 + k, 105 + k) =~= exp);
    assert(p.subrange(105 + k, 106 + k) =~= lit_close());
    assert forall|i: int| 8 <= i < 40 implies is_digit(16, #[trigger] p[i]) by {
        assert(p[i] == p.subrange(8, 40)[i - 8]);
        assert(is_digit(16, hex[i - 8]));
    };
    assert forall|i: int| 58 + k <= i < 78 + k implies is_digit(10, #[trigger] p[i]) by {
        assert(p[i] == p.subrange(58 + k, 78 + k)[i - (58 + k)]);
        assert(is_digit(10, iat[i - (58 + k)]));
    };
    assert forall|i: int| 85 + k <= i < 105 + k implies is_digit(10, #[trigger] p[i]) by {
        assert(p[i] == p.subrange(85 + k, 105 + k)[i - (85 + k)]);
        assert(is_digit(10, exp[i - (85 + k)]));
    };
    assert(seq_val(16, p.subrange(8, 40)) == c.sub.value);
    assert(seq_val(10, p.subrange(58 + k, 78 + k)) == c.iat);
    assert(seq_val(10, p.subrange(85 + k, 105 + k)) == c.exp);
    if c.kind == TokenKind::Access {
        assert(p.len() == 112);
        assert(spec_parse_kind(p, TokenKind::Access) == Some(c));
    } else {
        assert(p.len() == 113);
        assert(spec_parse_kind(p, TokenKind::Refresh) == Some(c));
    }
}

} // verus!
