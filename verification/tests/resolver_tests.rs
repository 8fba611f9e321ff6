use koii_auth::auth;
use koii_auth::codec::{TokenClaims, TokenUsage};
use koii_auth::cookie_query::{compare, parse_cookies, AuthorizationStatus};
use koii_auth::jwt::Jwt;
use koii_auth::token_cache::{TokenCache, TokenQuery};
use koii_auth::{REFRESH_MAX_AGE, TOKEN_MAX_AGE};

const PUBLIC_PEM: &str = "-----BEGIN PUBLIC KEY-----
MFkwEwYHKoZIzj0CAQYIKoZIzj0DAQcDQgAEce1mpMkhPJxOLY8LHzqe6m9LTmMA
rgpwUEBhtvRbgYcDkwxShxZHX7iu5385Sqr+KlNRLOoLVUoGqxD9++pw7Q==
-----END PUBLIC KEY-----
";

// Tokens signed under the key pair of the public key above: access for
// (Authorize, "alice", exp 1_700_000_900) and refresh for (Refresh, "alice",
// exp 1_701_296_000).
const ACCESS_TOKEN: &str = "A.1700000900.alice.nE5rYaNXaYDN01OEZr73HfOcPnowjr1TntmQYroRZtZnxn8uw1U5Lf_6xskX7-zQu0ZRCHa3c2FDKciWeW5INQ";
const REFRESH_TOKEN: &str = "R.1701296000.alice.4hI02WUH9zH9VriBtH56IXEnvKTGb8u8IP1PqyGLk1YOPLTB-nSzkyUkFPVchO-tTgFeHVDB0g3kIJIS0e_atw";

fn verify_only() -> Jwt {
    Jwt::new(None, PUBLIC_PEM.as_bytes().to_vec())
}

const NOW: u64 = 1_700_000_000;

#[test]
fn valid_access_cookie_authorizes() {
    let jwt = verify_only();
    let header = format!("token={}; refresh={}", ACCESS_TOKEN, REFRESH_TOKEN);
    let info = parse_cookies(&jwt, &header, NOW);
    assert!(matches!(info.status, AuthorizationStatus::Authorized));
    let t = info.token.expect("access claims must be present");
    assert_eq!(t.id, "alice");
    let r = info.refresh.expect("refresh claims must be present");
    assert_eq!(r.id, "alice");
}

#[test]
fn refresh_token_in_access_slot_never_authorizes() {
    let jwt = verify_only();
    // the refresh token, though perfectly valid, sits in the access slot
    let header = format!("token={}", REFRESH_TOKEN);
    let info = parse_cookies(&jwt, &header, NOW);
    assert!(info.token.is_none());
    assert!(!matches!(info.status, AuthorizationStatus::Authorized));
}

#[test]
fn access_token_in_refresh_slot_grants_nothing() {
    let jwt = verify_only();
    let header = format!("refresh={}", ACCESS_TOKEN);
    let info = parse_cookies(&jwt, &header, NOW);
    assert!(info.refresh.is_none());
    assert!(matches!(info.status, AuthorizationStatus::Unauthorized));
}

#[test]
fn refresh_cookie_alone_leaves_rotation_open() {
    let jwt = verify_only();
    let header = format!("refresh={}", REFRESH_TOKEN);
    let info = parse_cookies(&jwt, &header, NOW);
    assert!(info.token.is_none());
    assert!(matches!(info.status, AuthorizationStatus::RefreshActive));
}

#[test]
fn expired_access_with_live_refresh_is_refresh_active() {
    let jwt = verify_only();
    let header = format!("token={}; refresh={}", ACCESS_TOKEN, REFRESH_TOKEN);
    let later = NOW + TOKEN_MAX_AGE; // access expired, refresh still good
    let info = parse_cookies(&jwt, &header, later);
    assert!(info.token.is_none());
    assert!(matches!(info.status, AuthorizationStatus::RefreshActive));
}

#[test]
fn malformed_cookies_degrade_to_unauthorized() {
    let jwt = verify_only();
    for header in [
        "",
        "garbage",
        "token=",
        "token=zzz; refresh=zzz",
        "=value; ;; token",
        "session=abc",
    ] {
        let info = parse_cookies(&jwt, header, NOW);
        assert!(matches!(info.status, AuthorizationStatus::Unauthorized));
        assert!(info.token.is_none());
        assert!(info.refresh.is_none());
    }
}

#[test]
fn later_valid_cookie_wins_the_slot() {
    let jwt = verify_only();
    let header = format!("token=bad-token; token={}", ACCESS_TOKEN);
    let info = parse_cookies(&jwt, &header, NOW);
    assert!(matches!(info.status, AuthorizationStatus::Authorized));
}

#[test]
fn compare_matches_claims_of_one_issuance() {
    let access = Some(TokenClaims {
        usage: TokenUsage::Authorize,
        id: String::from("alice"),
        exp: NOW + TOKEN_MAX_AGE,
    });
    let refresh = Some(TokenClaims {
        usage: TokenUsage::Refresh,
        id: String::from("alice"),
        exp: NOW + REFRESH_MAX_AGE,
    });
    assert!(compare(&access, &refresh));

    let other_issue = Some(TokenClaims {
        usage: TokenUsage::Refresh,
        id: String::from("alice"),
        exp: NOW + REFRESH_MAX_AGE + 1,
    });
    assert!(!compare(&access, &other_issue));

    let other_subject = Some(TokenClaims {
        usage: TokenUsage::Refresh,
        id: String::from("bob"),
        exp: NOW + REFRESH_MAX_AGE,
    });
    assert!(!compare(&access, &other_subject));
    assert!(!compare(&access, &None));
    assert!(!compare(&None, &refresh));
}

#[test]
fn parse_token_reads_three_dotted_parts() {
    let q = auth::parse_token(vec!["alice", "1000", "s3cret"]).expect("must parse");
    assert_eq!(q.user_id, "alice");
    assert_eq!(q.created_at, 1000);
    assert_eq!(q.secret, "s3cret");

    assert!(auth::parse_token(vec!["alice", "1000"]).is_none());
    assert!(auth::parse_token(vec!["alice", "10x0", "s3cret"]).is_none());
    assert!(auth::parse_token(vec![]).is_none());
    // extra parts are ignored
    assert!(auth::parse_token(vec!["alice", "1000", "s3cret", "extra"]).is_some());
}

#[test]
fn split_dots_splits_every_dot() {
    assert_eq!(auth::split_dots("a.b.c"), vec!["a", "b", "c"]);
    assert_eq!(auth::split_dots("abc"), vec!["abc"]);
    assert_eq!(auth::split_dots(".."), vec!["", "", ""]);
}

#[test]
fn cache_checked_resolver_follows_the_store() {
    let mut cache = TokenCache::new();
    cache.add(TokenQuery {
        user_id: String::from("alice"),
        created_at: 1000,
        secret: String::from("s3cret"),
    });

    let header = "theme=dark; token=alice.1000.s3cret";
    let info = auth::parse_cookies(&mut cache, header, 1100);
    assert!(matches!(info.status, auth::AuthorizationStatus::Authorized));
    let t = info.token.expect("credential must be attached");
    assert_eq!(t.user_id, "alice");
    assert_eq!(t.created_at, 1000);
    assert_eq!(t.secret, "s3cret");

    cache.delete_all("alice");
    let info = auth::parse_cookies(&mut cache, header, 1100);
    assert!(matches!(info.status, auth::AuthorizationStatus::Unauthorized));
    assert!(info.token.is_none());
}

#[test]
fn cache_checked_resolver_rejects_unknown_or_malformed() {
    let mut cache = TokenCache::new();
    let info = auth::parse_cookies(&mut cache, "token=alice.1000.s3cret", 1000);
    assert!(matches!(info.status, auth::AuthorizationStatus::Unauthorized));
    let info = auth::parse_cookies(&mut cache, "token=not-dotted", 1000);
    assert!(matches!(info.status, auth::AuthorizationStatus::Unauthorized));
    let info = auth::parse_cookies(&mut cache, "refresh=alice.1000.s3cret", 1000);
    assert!(matches!(info.status, auth::AuthorizationStatus::Unauthorized));
}
