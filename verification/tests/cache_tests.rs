use koii_auth::refresh_cache::{RefreshCache, RefreshCacheQuery};
use koii_auth::token_cache::{TokenCache, TokenQuery};
use koii_auth::verify_cache::{VerifyCache, VerifyCacheQuery};

fn q(user: &str, created: u64, secret: &str) -> TokenQuery {
    TokenQuery {
        user_id: String::from(user),
        created_at: created,
        secret: String::from(secret),
    }
}

#[test]
fn added_session_authorizes_within_lifetime() {
    let mut cache = TokenCache::new();
    cache.add(q("alice", 1000, "s3cret"));
    assert!(cache.authorize(&q("alice", 1000, "s3cret"), 1000));
    assert!(cache.authorize(&q("alice", 1000, "s3cret"), 1900));
}

#[test]
fn authorize_rejects_wrong_fields() {
    let mut cache = TokenCache::new();
    cache.add(q("alice", 1000, "s3cret"));
    assert!(!cache.authorize(&q("alice", 1000, "other"), 1000));
    assert!(!cache.authorize(&q("alice", 1001, "s3cret"), 1000));
    assert!(!cache.authorize(&q("bob", 1000, "s3cret"), 1000));
}

#[test]
fn authorize_evicts_stale_entry() {
    let mut cache = TokenCache::new();
    cache.add(q("alice", 1000, "s3cret"));
    // age 901 exceeds the 900-second lifetime: reported false and evicted
    assert!(!cache.authorize(&q("alice", 1000, "s3cret"), 1901));
    // even a later in-window probe stays false: the entry is gone
    assert!(!cache.authorize(&q("alice", 1000, "s3cret"), 1000));
}

#[test]
fn future_dated_entry_counts_as_live() {
    let mut cache = TokenCache::new();
    cache.add(q("alice", 2000, "s3cret"));
    assert!(cache.authorize(&q("alice", 2000, "s3cret"), 1000));
}

#[test]
fn extend_ttl_slides_the_window() {
    let mut cache = TokenCache::new();
    cache.add(q("alice", 1000, "s3cret"));
    cache.extend_ttl(&q("alice", 1000, "s3cret"), 1800);
    assert!(!cache.authorize(&q("alice", 1000, "s3cret"), 1850));
    assert!(cache.authorize(&q("alice", 1800, "s3cret"), 2600));
}

#[test]
fn delete_one_removes_exactly_one_session() {
    let mut cache = TokenCache::new();
    cache.add(q("alice", 1000, "one"));
    cache.add(q("alice", 1200, "two"));
    assert!(cache.delete_one(&q("alice", 1000, "one")));
    assert!(!cache.delete_one(&q("alice", 1000, "one")));
    assert!(!cache.authorize(&q("alice", 1000, "one"), 1000));
    assert!(cache.authorize(&q("alice", 1200, "two"), 1200));
}

#[test]
fn delete_all_revokes_every_session_of_the_subject() {
    let mut cache = TokenCache::new();
    cache.add(q("alice", 1000, "one"));
    cache.add(q("alice", 1200, "two"));
    cache.add(q("bob", 1100, "three"));
    // the entries are valid before the account-wide revocation
    assert!(cache.authorize(&q("alice", 1000, "one"), 1000));
    cache.delete_all("alice");
    assert!(!cache.authorize(&q("alice", 1000, "one"), 1000));
    assert!(!cache.authorize(&q("alice", 1200, "two"), 1200));
    assert!(cache.authorize(&q("bob", 1100, "three"), 1100));
}

#[test]
fn duplicate_add_is_idempotent() {
    let mut cache = TokenCache::new();
    cache.add(q("alice", 1000, "s3cret"));
    cache.add(q("alice", 1000, "s3cret"));
    assert!(cache.delete_one(&q("alice", 1000, "s3cret")));
    assert!(!cache.authorize(&q("alice", 1000, "s3cret"), 1000));
}

#[test]
fn refresh_marker_permits_exactly_once() {
    let mut cache = RefreshCache::new();
    cache.add(RefreshCacheQuery {
        user_id: String::from("alice"),
        created_at: 1000,
    });
    assert!(cache.permit(&RefreshCacheQuery {
        user_id: String::from("alice"),
        created_at: 1000,
    }));
    assert!(!cache.permit(&RefreshCacheQuery {
        user_id: String::from("alice"),
        created_at: 1000,
    }));
}

#[test]
fn refresh_permit_needs_a_marker() {
    let mut cache = RefreshCache::new();
    assert!(!cache.permit(&RefreshCacheQuery {
        user_id: String::from("alice"),
        created_at: 1000,
    }));
    cache.add(RefreshCacheQuery {
        user_id: String::from("alice"),
        created_at: 1000,
    });
    assert!(!cache.permit(&RefreshCacheQuery {
        user_id: String::from("alice"),
        created_at: 2000,
    }));
    assert!(!cache.permit(&RefreshCacheQuery {
        user_id: String::from("bob"),
        created_at: 1000,
    }));
    assert!(cache.permit(&RefreshCacheQuery {
        user_id: String::from("alice"),
        created_at: 1000,
    }));
}

#[test]
fn verify_code_redeems_exactly_once() {
    let mut cache = VerifyCache::new();
    cache.add(VerifyCacheQuery {
        user_id: String::from("alice"),
        code: String::from("code-1"),
    });
    assert_eq!(cache.permit("code-1"), Some(String::from("alice")));
    assert_eq!(cache.permit("code-1"), None);
    assert_eq!(cache.permit("code-2"), None);
}

#[test]
fn verify_code_is_a_key() {
    let mut cache = VerifyCache::new();
    cache.add(VerifyCacheQuery {
        user_id: String::from("alice"),
        code: String::from("code-1"),
    });
    cache.add(VerifyCacheQuery {
        user_id: String::from("bob"),
        code: String::from("code-1"),
    });
    assert_eq!(cache.permit("code-1"), Some(String::from("bob")));
    assert_eq!(cache.permit("code-1"), None);
}
