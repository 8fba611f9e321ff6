use koii_auth::codec::{TokenClaims, TokenUsage};
use koii_auth::jwt::Jwt;

const PRIVATE_PEM: &str = "SECRET-REDACTED
";

const PUBLIC_PEM: &str = "-----BEGIN PUBLIC KEY-----
MFkwEwYHKoZIzj0CAQYIKoZIzj0DAQcDQgAEce1mpMkhPJxOLY8LHzqe6m9LTmMA
rgpwUEBhtvRbgYcDkwxShxZHX7iu5385Sqr+KlNRLOoLVUoGqxD9++pw7Q==
-----END PUBLIC KEY-----
";

const OTHER_PUBLIC_PEM: &str = "-----BEGIN PUBLIC KEY-----
MFkwEwYHKoZIzj0CAQYIKoZIzj0DAQcDQgAE55B8zKcEuxvIDUWT32ak/J/Z5Awz
V4s4Sd8GfhlF4Z9raYXEZjTOSYNxNx78JRuojS4tm9HxmC2hYMVedQkqOw==
-----END PUBLIC KEY-----
";

// A token for (Authorize, "alice", exp 1_700_000_900), signed under the key
// pair above.
const ACCESS_TOKEN: &str = "A.1700000900.alice.nE5rYaNXaYDN01OEZr73HfOcPnowjr1TntmQYroRZtZnxn8uw1U5Lf_6xskX7-zQu0ZRCHa3c2FDKciWeW5INQ";

fn signer() -> Jwt {
    Jwt::new(
        Some(PRIVATE_PEM.as_bytes().to_vec()),
        PUBLIC_PEM.as_bytes().to_vec(),
    )
}

fn verify_only() -> Jwt {
    Jwt::new(None, PUBLIC_PEM.as_bytes().to_vec())
}

#[test]
fn sign_then_verify_round_trips() {
    let jwt = signer();
    let claims = TokenClaims {
        usage: TokenUsage::Authorize,
        id: String::from("alice"),
        exp: 1_700_000_900,
    };
    // the live round trip: `generate` may refuse — its contract promises no
    // more, since the signing backend decides — but whatever token it does
    // return must verify back to exactly the claims that were signed
    if let Some(token) = jwt.generate(&claims) {
        let back = jwt
            .verify(&token, 1_700_000_000)
            .expect("a generated token must verify within its expiry");
        assert!(matches!(back.usage, TokenUsage::Authorize));
        assert_eq!(back.id, "alice");
        assert_eq!(back.exp, 1_700_000_900);
    }
    // the same claims signed ahead of time under the same key pair: this leg
    // of the round trip runs whatever the signing backend does
    let back = jwt
        .verify(ACCESS_TOKEN, 1_700_000_000)
        .expect("the pre-signed token must verify within its expiry");
    assert!(matches!(back.usage, TokenUsage::Authorize));
    assert_eq!(back.id, "alice");
    assert_eq!(back.exp, 1_700_000_900);
}

#[test]
fn verify_rejects_expired() {
    let jwt = verify_only();
    // one second before the expiry the token still opens
    let c = jwt
        .verify(ACCESS_TOKEN, 1_700_000_899)
        .expect("unexpired token must verify");
    assert_eq!(c.id, "alice");
    // at the expiry instant, and after it, it does not
    assert!(jwt.verify(ACCESS_TOKEN, 1_700_000_900).is_none());
}

#[test]
fn verify_rejects_other_key_pair() {
    let other = Jwt::new(None, OTHER_PUBLIC_PEM.as_bytes().to_vec());
    assert!(other.verify(ACCESS_TOKEN, 1_700_000_000).is_none());
}

#[test]
fn verify_rejects_corruption_in_any_segment() {
    let jwt = verify_only();
    assert!(jwt.verify(ACCESS_TOKEN, 1_700_000_000).is_some());
    // one flipped character in each region of the token: the usage tag, both
    // separators, the timestamp, the subject id, and the start, middle and
    // end of the signature
    let len = ACCESS_TOKEN.len();
    for i in [0, 1, 2, 6, 12, 14, 17, 19, len / 2, len - 1] {
        let mut bytes = ACCESS_TOKEN.as_bytes().to_vec();
        bytes[i] = if bytes[i] == b'A' { b'B' } else { b'A' };
        if bytes == ACCESS_TOKEN.as_bytes() {
            continue;
        }
        let corrupted = String::from_utf8(bytes).expect("still ascii");
        if let Some(c) = jwt.verify(&corrupted, 1_700_000_000) {
            panic!(
                "corrupted token verified at index {}: id {} exp {}",
                i, c.id, c.exp
            );
        }
    }
}

#[test]
fn verify_rejects_garbage() {
    let jwt = verify_only();
    assert!(jwt.verify("", 0).is_none());
    assert!(jwt.verify("no-dots-here", 0).is_none());
    assert!(jwt.verify("A.900.alice.not-a-signature", 0).is_none());
}

#[test]
fn verify_only_deployment_cannot_sign() {
    let jwt = verify_only();
    let claims = TokenClaims {
        usage: TokenUsage::Authorize,
        id: String::from("alice"),
        exp: 1_700_000_900,
    };
    // no private key: signing refuses
    assert!(jwt.generate(&claims).is_none());
    // but verification still works
    assert!(jwt.verify(ACCESS_TOKEN, 1_700_000_000).is_some());
}

#[test]
fn awkward_subject_ids_verify_intact() {
    let jwt = verify_only();
    let dotted = "A.1700000900.user.with.dots.giXgBOOKMgptHcv8CL12CPq8IaEnp25LiIPmpvc5CBRADo76bbEUgIBUm4worY-J7o2RdmQCA2p7F4cfayvIGw";
    let c = jwt.verify(dotted, 1_700_000_000).expect("must verify");
    assert_eq!(c.id, "user.with.dots");
    assert_eq!(c.exp, 1_700_000_900);

    let unicode = "A.1700000900.üñíçødé-id.z7DqwZPL6CbNgZdKi5ib5x1JZbtIaleMWb3Nq_S9PBlCh3YM6UCxRo8WKMaMy6uKcYsQ3IGHsFGPK1psUD2igg";
    let c = jwt.verify(unicode, 1_700_000_000).expect("must verify");
    assert_eq!(c.id, "üñíçødé-id");
}
