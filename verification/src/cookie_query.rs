//! Per-request classification of credential cookies.
//!
//! The resolver walks the `Cookie` header's segments, opens the `token` and
//! `refresh` slots through the token codec, and discards a claim whose usage
//! does not match the slot it was read from: a refresh token placed in the
//! access slot never grants access. Classification is side-effect free; when
//! several segments share a name, the last valid one wins.

use vstd::prelude::*;
use vstd::string::*;

use crate::codec::{TokenClaims, TokenUsage, ClaimsModel, spec_option_model};
use crate::cookies::{spec_find_sep, spec_segment_pair, find_sep, segment_pair};
use crate::jwt::{Jwt, spec_verify_token};
use crate::{TOKEN_MAX_AGE, REFRESH_MAX_AGE};

verus! {

/// How a request stands after its cookies were read.
#[derive(Clone, Copy, PartialEq, Eq, Structural, Debug)]
pub enum AuthorizationStatus {
    Authorized,
    Unauthorized,
    /// The user is unauthorized, but the refresh token is in good condition.
    RefreshActive,
}

/// What the resolver hands to downstream handlers.
pub struct AuthorizationInfo {
    pub token: Option<TokenClaims>,
    pub refresh: Option<TokenClaims>,
    pub status: AuthorizationStatus,
}

/// The claims one segment contributes to the slot `name`: the segment must be
/// named `name`, its value must verify, and the claims' usage must match the
/// slot's expected usage.
pub open spec fn spec_slot_claims(
    seg: Seq<char>,
    name: Seq<char>,
    usage: TokenUsage,
    public_pem: Seq<u8>,
    now: u64,
) -> Option<ClaimsModel> {
    match spec_segment_pair(seg) {
        Some(p) => if p.0 == name {
            match spec_verify_token(p.1, public_pem, now) {
                Some(c) => if c.usage == usage {
                    Some(c)
                } else {
                    None
                },
                None => None,
            }
        } else {
            None
        },
        None => None,
    }
}

/// One segment applied to the running (token, refresh) pair: a valid claim in
/// a slot replaces what an earlier segment put there.
pub open spec fn spec_step(
    seg: Seq<char>,
    public_pem: Seq<u8>,
    now: u64,
    t0: Option<ClaimsModel>,
    r0: Option<ClaimsModel>,
) -> (Option<ClaimsModel>, Option<ClaimsModel>) {
    let t = match spec_slot_claims(seg, "token"@, TokenUsage::Authorize, public_pem, now) {
        Some(c) => Some(c),
        None => t0,
    };
    let r = match spec_slot_claims(seg, "refresh"@, TokenUsage::Refresh, public_pem, now) {
        Some(c) => Some(c),
        None => r0,
    };
    (t, r)
}

/// The whole header folded left to right over its `"; "` segments.
pub open spec fn spec_scan(
    s: Seq<char>,
    public_pem: Seq<u8>,
    now: u64,
    t0: Option<ClaimsModel>,
    r0: Option<ClaimsModel>,
) -> (Option<ClaimsModel>, Option<ClaimsModel>)
    decreases s.len(),
{
    let j = spec_find_sep(s, 0);
    if j < 0 || j + 2 > s.len() {
        spec_step(s, public_pem, now, t0, r0)
    } else {
        let p = spec_step(s.take(j), public_pem, now, t0, r0);
        spec_scan(s.skip(j + 2), public_pem, now, p.0, p.1)
    }
}

/// The classification the two slots give: a valid access claim authorizes; a
/// valid refresh claim alone leaves rotation open; nothing valid is
/// unauthorized.
pub open spec fn spec_status(
    t: Option<ClaimsModel>,
    r: Option<ClaimsModel>,
) -> AuthorizationStatus {
    if t is Some {
        AuthorizationStatus::Authorized
    } else if r is Some {
        AuthorizationStatus::RefreshActive
    } else {
        AuthorizationStatus::Unauthorized
    }
}

fn step_cookie(
    jwt: &Jwt,
    seg: &str,
    now: u64,
    t0: Option<TokenClaims>,
    r0: Option<TokenClaims>,
) -> (r: (Option<TokenClaims>, Option<TokenClaims>))
    ensures
        spec_option_model(r.0) == spec_step(
            seg@,
            jwt.spec_public_pem(),
            now,
            spec_option_model(t0),
            spec_option_model(r0),
        ).0,
        spec_option_model(r.1) == spec_step(
            seg@,
            jwt.spec_public_pem(),
            now,
            spec_option_model(t0),
            spec_option_model(r0),
        ).1,
{
    proof {
        reveal_strlit("token");
        reveal_strlit("refresh");
        assert("token"@.len() == 5);
        assert("refresh"@.len() == 7);
    }
    let pair = match segment_pair(seg) {
        Some(p) => p,
        None => {
            return (t0, r0);
        },
    };
    let name = String::from_str(pair.0);
    if name == String::from_str("token") {
        match jwt.verify(pair.1, now) {
            Some(c) => {
                if c.usage == TokenUsage::Authorize {
                    (Some(c), r0)
                } else {
                    (t0, r0)
                }
            },
            None => (t0, r0),
        }
    } else if name == String::from_str("refresh") {
        match jwt.verify(pair.1, now) {
            Some(c) => {
                if c.usage == TokenUsage::Refresh {
                    (t0, Some(c))
                } else {
                    (t0, r0)
                }
            },
            None => (t0, r0),
        }
    } else {
        (t0, r0)
    }
}

fn scan_cookies(
    jwt: &Jwt,
    s: &str,
    now: u64,
    t0: Option<TokenClaims>,
    r0: Option<TokenClaims>,
) -> (r: (Option<TokenClaims>, Option<TokenClaims>))
    ensures
        spec_option_model(r.0) == spec_scan(
            s@,
            jwt.spec_public_pem(),
            now,
            spec_option_model(t0),
            spec_option_model(r0),
        ).0,
        spec_option_model(r.1) == spec_scan(
            s@,
            jwt.spec_public_pem(),
            now,
            spec_option_model(t0),
            spec_option_model(r0),
        ).1,
    decreases s@.len(),
{
    let len = s.unicode_len();
    match find_sep(s) {
        None => step_cookie(jwt, s, now, t0, r0),
        Some(j) => {
            let head = s.substring_char(0, j);
            let p = step_cookie(jwt, head, now, t0, r0);
            let rest = s.substring_char(j + 2, len);
            scan_cookies(jwt, rest, now, p.0, p.1)
        },
    }
}

/// Reads the whole `Cookie` header and classifies the request. The access
/// slot only ever yields access-usage claims and the refresh slot only
/// refresh-usage claims; `Authorized` needs a structurally valid, unexpired
/// access claim, and `RefreshActive` a refresh claim with no access claim.
pub fn parse_cookies(jwt: &Jwt, cookies_str: &str, now: u64) -> (r: AuthorizationInfo)
    ensures
        spec_option_model(r.token) == spec_scan(
            cookies_str@,
            jwt.spec_public_pem(),
            now,
            None,
            None,
        ).0,
        spec_option_model(r.refresh) == spec_scan(
            cookies_str@,
            jwt.spec_public_pem(),
            now,
            None,
            None,
        ).1,
        r.status == spec_status(
            spec_option_model(r.token),
            spec_option_model(r.refresh),
        ),
{
    let p = scan_cookies(jwt, cookies_str, now, None, None);
    let status = if p.0.is_some() {
        AuthorizationStatus::Authorized
    } else if p.1.is_some() {
        AuthorizationStatus::RefreshActive
    } else {
        AuthorizationStatus::Unauthorized
    };
    AuthorizationInfo { token: p.0, refresh: p.1, status }
}

/// Whether the two claims belong to one session issuance: equal subjects and
/// equal issuance instants, each instant recovered from the claim's expiry by
/// subtracting its slot's lifetime.
pub open spec fn spec_compare(t: Option<ClaimsModel>, r: Option<ClaimsModel>) -> bool {
    match (t, r) {
        (Some(t), Some(r)) => t.exp - TOKEN_MAX_AGE == r.exp - REFRESH_MAX_AGE && t.id == r.id,
        _ => false,
    }
}

/// Reports whether an access claim and a refresh claim come from the same
/// issuance: present on both sides, same subject, same issuance instant.
pub fn compare(token: &Option<TokenClaims>, refresh: &Option<TokenClaims>) -> (r: bool)
    ensures
        r == spec_compare(spec_option_model(*token), spec_option_model(*refresh)),
{
    match (token, refresh) {
        (Some(t), Some(f)) => {
            (t.exp as u128) + (REFRESH_MAX_AGE as u128) == (f.exp as u128) + (TOKEN_MAX_AGE as u128)
                && t.id == f.id
        },
        _ => false,
    }
}

/// A claims object with refresh usage read from the access-token cookie slot
/// never yields `Authorized`: whatever the header holds, the access slot only
/// carries access-usage claims, so an `Authorized` classification always
/// rests on an access-usage claim.
pub proof fn lemma_refresh_in_access_slot_never_authorized(
    s: Seq<char>,
    public_pem: Seq<u8>,
    now: u64,
    t0: Option<ClaimsModel>,
    r0: Option<ClaimsModel>,
)
    requires
        t0 matches Some(c) ==> c.usage == TokenUsage::Authorize,
    ensures
        spec_scan(s, public_pem, now, t0, r0).0 matches Some(c) ==> c.usage
            == TokenUsage::Authorize,
        spec_status(spec_scan(s, public_pem, now, t0, r0).0, spec_scan(s, public_pem, now, t0, r0).1)
            == AuthorizationStatus::Authorized ==> spec_scan(s, public_pem, now, t0, r0).0 is Some,
    decreases s.len(),
{
    let j = spec_find_sep(s, 0);
    if j < 0 || j + 2 > s.len() {
    } else {
        let p = spec_step(s.take(j), public_pem, now, t0, r0);
        lemma_refresh_in_access_slot_never_authorized(s.skip(j + 2), public_pem, now, p.0, p.1);
    }
}

} // verus!
