use koii_auth::codec::{
    parse_decimal, parse_payload, payload_string, u64_to_string, TokenClaims, TokenUsage,
};

#[test]
fn decimal_renders_exactly() {
    assert_eq!(u64_to_string(0), "0");
    assert_eq!(u64_to_string(7), "7");
    assert_eq!(u64_to_string(900), "900");
    assert_eq!(u64_to_string(1296000), "1296000");
    assert_eq!(u64_to_string(u64::MAX), "18446744073709551615");
}

#[test]
fn decimal_parses_exactly() {
    assert_eq!(parse_decimal("0"), Some(0));
    assert_eq!(parse_decimal("900"), Some(900));
    assert_eq!(parse_decimal("18446744073709551615"), Some(u64::MAX));
    assert_eq!(parse_decimal("18446744073709551616"), None);
    assert_eq!(parse_decimal(""), None);
    assert_eq!(parse_decimal("12a"), None);
    assert_eq!(parse_decimal("-5"), None);
    assert_eq!(parse_decimal(" 5"), None);
}

#[test]
fn decimal_round_trip() {
    for n in [0u64, 1, 9, 10, 99, 100, 12345678901234567, u64::MAX] {
        let s = u64_to_string(n);
        assert_eq!(parse_decimal(&s), Some(n));
    }
}

#[test]
fn payload_renders_exactly() {
    let c = TokenClaims {
        usage: TokenUsage::Authorize,
        id: String::from("alice"),
        exp: 900,
    };
    assert_eq!(payload_string(&c), "A.900.alice");
    let c = TokenClaims {
        usage: TokenUsage::Refresh,
        id: String::from("bob"),
        exp: 1296000,
    };
    assert_eq!(payload_string(&c), "R.1296000.bob");
}

#[test]
fn payload_round_trip() {
    let c = TokenClaims {
        usage: TokenUsage::Refresh,
        id: String::from("user.with.dots"),
        exp: 1700000000,
    };
    let s = payload_string(&c);
    let back = parse_payload(&s).expect("payload must parse back");
    assert!(matches!(back.usage, TokenUsage::Refresh));
    assert_eq!(back.id, "user.with.dots");
    assert_eq!(back.exp, 1700000000);
}

#[test]
fn payload_round_trip_empty_id() {
    let c = TokenClaims {
        usage: TokenUsage::Authorize,
        id: String::new(),
        exp: 0,
    };
    let s = payload_string(&c);
    assert_eq!(s, "A.0.");
    let back = parse_payload(&s).expect("payload must parse back");
    assert_eq!(back.id, "");
    assert_eq!(back.exp, 0);
}

#[test]
fn payload_rejects_malformed() {
    assert!(parse_payload("").is_none());
    assert!(parse_payload("A").is_none());
    assert!(parse_payload("X.900.alice").is_none());
    assert!(parse_payload("A:900.alice").is_none());
    assert!(parse_payload("A.900x.alice").is_none());
    assert!(parse_payload("A..alice").is_none());
    assert!(parse_payload("A.900").is_none());
    assert!(parse_payload("A.18446744073709551616.alice").is_none());
}
