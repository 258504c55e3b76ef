use authcore::claims::Claims;
use authcore::claims::TokenKind;
use authcore::claims::UserId;
use authcore::claims::parse_payload;
use authcore::claims::render_payload;
use authcore::codec::fixed_dec;
use authcore::codec::fixed_enc;
use authcore::codec::match_lit;
use authcore::codec::str_eq;

#[test]
fn fixed_width_rendering_keeps_leading_zeroes() {
    assert_eq!(fixed_enc(16, 255, 4), "00ff");
    assert_eq!(fixed_enc(16, 0xdead_beef, 8), "deadbeef");
    assert_eq!(fixed_enc(10, 42, 5), "00042");
    assert_eq!(fixed_enc(10, 0, 1), "0");
}

#[test]
fn fixed_width_parsing_inverts_rendering() {
    let s = fixed_enc(16, 0xc0ffee, 10);
    assert_eq!(fixed_dec(s.as_str(), 0, 16, 10), Some(0xc0ffee));
    assert_eq!(fixed_dec("00042", 0, 10, 5), Some(42));
    assert_eq!(fixed_dec("12x45", 0, 10, 5), None);
    assert_eq!(fixed_dec("abcdef", 0, 10, 6), None);
}

#[test]
fn string_helpers() {
    assert!(str_eq("abc", "abc"));
    assert!(!str_eq("abc", "abd"));
    assert!(!str_eq("abc", "abcd"));
    assert!(match_lit("hello world", 6, "world"));
    assert!(!match_lit("hello world", 6, "worle"));
}

#[test]
fn payload_round_trip() {
    let claims = Claims {
        sub: UserId { value: 0xfeed },
        kind: TokenKind::Refresh,
        iat: 100,
        exp: 200,
    };
    let text = render_payload(&claims);
    assert_eq!(
        text,
        "{\"sub\":\"0000000000000000000000000000feed\",\"kind\":\"refresh\",\
         \"iat\":00000000000000000100,\"exp\":00000000000000000200}"
    );
    assert_eq!(parse_payload(text.as_str()), Some(claims));
    assert_eq!(parse_payload("{}"), None);
    // A payload whose expiry does not lie after issuance never parses.
    let backwards = text.replace("00000000000000000200", "00000000000000000100");
    assert_eq!(parse_payload(backwards.as_str()), None);
}
