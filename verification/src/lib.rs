pub mod codec;
pub mod jwt;
pub mod token_cache;
pub mod refresh_cache;
pub mod verify_cache;
pub mod cookies;
pub mod session;
pub mod cookie_query;
pub mod auth;
pub mod payloads;
pub mod workers;

use vstd::prelude::*;

verus! {

/// Lifetime of an access token, in seconds (15 minutes).
pub const TOKEN_MAX_AGE: u64 = 900;

/// Lifetime of a refresh token, in seconds (15 days).
pub const REFRESH_MAX_AGE: u64 = 1296000;

/// Lifetime of a pending email-verification code, in seconds (10 minutes).
pub const EMAIL_VERIFY_EXPIRE: u64 = 600;

} // verus!
