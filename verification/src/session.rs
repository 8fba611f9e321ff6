//! The session manager: the only component that mints or rotates a session.
//!
//! `create` computes both token lifetimes from one issuance instant, signs an
//! access and a refresh token, and records the session entry and the refresh
//! marker under that same instant. Tokens are returned only when the backing
//! records were written, and every cookie's `Max-Age` mirrors the matching
//! claims expiry exactly. `rotate` consumes a refresh marker at most once and
//! then mints an entirely new session.

use vstd::prelude::*;
use vstd::string::*;

use crate::{TOKEN_MAX_AGE, REFRESH_MAX_AGE};
use crate::codec::{TokenClaims, TokenUsage, ClaimsModel};
use crate::cookies::{spec_cookie, consturct};
use crate::jwt::{Jwt, spec_token_wf, spec_verify_token};
use crate::token_cache::{TokenCache, TokenQuery, spec_authorize_result, session_live};
use crate::refresh_cache::{RefreshCache, RefreshCacheQuery};

verus! {

/// Number of characters in a freshly generated session secret.
pub const SECRET_LEN: usize = 32;

/// Why session issuance or rotation failed.
#[derive(Clone, Copy, PartialEq, Eq, Structural, Debug)]
pub enum SessionError {
    /// The backing store could not be written.
    DatabaseError,
    /// The presented refresh credential does not grant a rotation.
    BadRefreshToken,
    /// No signature could be produced (no or unusable private key).
    SigningError,
}

/// Everything a fresh session hands back: the two outgoing cookies, the bare
/// tokens they carry, and the issuance timestamp and secret under which the
/// session is recorded.
#[derive(Debug)]
pub struct SessionTokens {
    pub token_cookie: String,
    pub refresh_cookie: String,
    pub access_token: String,
    pub refresh_token: String,
    pub created_at: u64,
    pub secret: String,
}

/// Relies on nanoid's `format` with its default secure RNG and URL-safe
/// alphabet: the result holds exactly `len` characters. Its value is random,
/// so nothing more is assumed of it.
#[verifier::external_body]
fn generate_secret(len: usize) -> (r: String)
    ensures
        r@.len() == len,
{
    nanoid::format(nanoid::rngs::default, &nanoid::alphabet::SAFE, len)
}

/// The returned bundle is correctly assembled for subject `id` issued at
/// `now`: both tokens well formed with the configured lifetimes, both cookies
/// carrying exactly those tokens with `Max-Age` equal to those lifetimes.
pub open spec fn spec_tokens_ok(t: SessionTokens, public_pem: Seq<u8>, id: Seq<char>, now: u64) -> bool {
    &&& t.created_at == now
    &&& t.secret@.len() == SECRET_LEN
    &&& spec_token_wf(
        t.access_token@,
        ClaimsModel { usage: TokenUsage::Authorize, id, exp: (now + TOKEN_MAX_AGE) as u64 },
        public_pem,
    )
    &&& spec_token_wf(
        t.refresh_token@,
        ClaimsModel { usage: TokenUsage::Refresh, id, exp: (now + REFRESH_MAX_AGE) as u64 },
        public_pem,
    )
    &&& t.token_cookie@ == spec_cookie("token"@, t.access_token@, TOKEN_MAX_AGE)
    &&& t.refresh_cookie@ == spec_cookie("refresh"@, t.refresh_token@, REFRESH_MAX_AGE)
}

/// The session store gained exactly the entry (id, now, secret).
pub open spec fn spec_session_written(
    pre: TokenCache,
    post: TokenCache,
    id: Seq<char>,
    now: u64,
    secret: Seq<char>,
) -> bool {
    forall|u: Seq<char>, c: u64, s: Seq<char>|
        #[trigger] post.has_session(u, c, s) <==> (pre.has_session(u, c, s) || (u == id && c == now
            && s == secret))
}

/// The marker store gained exactly the marker (id, now).
pub open spec fn spec_marker_written(
    pre: RefreshCache,
    post: RefreshCache,
    id: Seq<char>,
    now: u64,
) -> bool {
    forall|u: Seq<char>, c: u64|
        #[trigger] post.has_marker(u, c) <==> (pre.has_marker(u, c) || (u == id && c == now))
}

/// Issues a new session for `id` at instant `now`: signs an access token
/// (short lifetime) and a refresh token (long lifetime), records the session
/// entry and the refresh marker under `now`, and returns the cookies. Fails
/// without touching either store when no signature can be produced: tokens
/// are never returned unless the backing records are written.
pub fn create(
    token_cache: &mut TokenCache,
    refresh_cache: &mut RefreshCache,
    jwt: &Jwt,
    id: String,
    now: u64,
) -> (r: Result<SessionTokens, SessionError>)
    requires
        now + REFRESH_MAX_AGE <= u64::MAX,
    ensures
        r matches Ok(t) ==> spec_tokens_ok(t, jwt.spec_public_pem(), id@, now)
            && spec_session_written(*old(token_cache), *final(token_cache), id@, now, t.secret@)
            && spec_marker_written(*old(refresh_cache), *final(refresh_cache), id@, now),
        r matches Err(e) ==> e == SessionError::SigningError && *final(token_cache) == *old(token_cache)
            && *final(refresh_cache) == *old(refresh_cache),
        !jwt.has_private_key() ==> r is Err,
{
    let access_claims = TokenClaims {
        usage: TokenUsage::Authorize,
        id: id.clone(),
        exp: now + TOKEN_MAX_AGE,
    };
    let refresh_claims = TokenClaims {
        usage: TokenUsage::Refresh,
        id: id.clone(),
        exp: now + REFRESH_MAX_AGE,
    };
    let access_token = match jwt.generate(&access_claims) {
        Some(t) => t,
        None => {
            return Err(SessionError::SigningError);
        },
    };
    let refresh_token = match jwt.generate(&refresh_claims) {
        Some(t) => t,
        None => {
            return Err(SessionError::SigningError);
        },
    };
    let secret = generate_secret(SECRET_LEN);
    token_cache.add(
        TokenQuery { user_id: id.clone(), created_at: now, secret: secret.clone() },
    );
    refresh_cache.add(RefreshCacheQuery { user_id: id, created_at: now });
    let token_cookie = consturct("token", access_token.clone(), TOKEN_MAX_AGE);
    let refresh_cookie = consturct("refresh", refresh_token.clone(), REFRESH_MAX_AGE);
    Ok(
        SessionTokens {
            token_cookie,
            refresh_cookie,
            access_token,
            refresh_token,
            created_at: now,
            secret,
        },
    )
}

/// Rotation from already verified claims: only a refresh-usage claim may mint
/// a new session, for the subject the claim names.
pub fn refresh_from_claims(
    token_cache: &mut TokenCache,
    refresh_cache: &mut RefreshCache,
    jwt: &Jwt,
    refresh: TokenClaims,
    now: u64,
) -> (r: Result<SessionTokens, SessionError>)
    requires
        now + REFRESH_MAX_AGE <= u64::MAX,
    ensures
        refresh@.usage != TokenUsage::Refresh ==> r == Err::<SessionTokens, SessionError>(
            SessionError::BadRefreshToken,
        ) && *final(token_cache) == *old(token_cache) && *final(refresh_cache) == *old(refresh_cache),
        r matches Ok(t) ==> refresh@.usage == TokenUsage::Refresh && spec_tokens_ok(
            t,
            jwt.spec_public_pem(),
            refresh@.id,
            now,
        ) && spec_session_written(*old(token_cache), *final(token_cache), refresh@.id, now, t.secret@)
            && spec_marker_written(*old(refresh_cache), *final(refresh_cache), refresh@.id, now),
        refresh@.usage == TokenUsage::Refresh && r is Err ==> r == Err::<
            SessionTokens,
            SessionError,
        >(SessionError::SigningError) && *final(token_cache) == *old(token_cache)
            && *final(refresh_cache) == *old(refresh_cache),
{
    if refresh.usage == TokenUsage::Refresh {
        return create(token_cache, refresh_cache, jwt, refresh.id, now);
    }
    Err(SessionError::BadRefreshToken)
}

/// Rotation from a raw refresh-cookie value: the token must verify and carry
/// refresh usage; then an entirely new session is minted for its subject.
pub fn refresh(
    token_cache: &mut TokenCache,
    refresh_cache: &mut RefreshCache,
    jwt: &Jwt,
    token: String,
    now: u64,
) -> (r: Result<SessionTokens, SessionError>)
    requires
        now + REFRESH_MAX_AGE <= u64::MAX,
    ensures
        (match spec_verify_token(token@, jwt.spec_public_pem(), now) {
            Some(c) => c.usage != TokenUsage::Refresh,
            None => true,
        }) ==> r == Err::<SessionTokens, SessionError>(SessionError::BadRefreshToken)
            && *final(token_cache) == *old(token_cache) && *final(refresh_cache) == *old(refresh_cache),
        r matches Ok(t) ==> (match spec_verify_token(token@, jwt.spec_public_pem(), now) {
            Some(c) => c.usage == TokenUsage::Refresh && spec_tokens_ok(
                t,
                jwt.spec_public_pem(),
                c.id,
                now,
            ) && spec_session_written(*old(token_cache), *final(token_cache), c.id, now, t.secret@)
                && spec_marker_written(*old(refresh_cache), *final(refresh_cache), c.id, now),
            None => false,
        }),
{
    if let Some(claims) = jwt.verify(token.as_str(), now) {
        if claims.usage == TokenUsage::Refresh {
            return create(token_cache, refresh_cache, jwt, claims.id, now);
        }
    }
    Err(SessionError::BadRefreshToken)
}

/// The full behaviour of `rotate` as a relation between the stores before and
/// after, the claims presented, the instant of the call, and the result.
pub open spec fn spec_rotate_rel(
    pre_t: TokenCache,
    post_t: TokenCache,
    pre_r: RefreshCache,
    post_r: RefreshCache,
    public_pem: Seq<u8>,
    claims: ClaimsModel,
    now: u64,
    r: Result<SessionTokens, SessionError>,
) -> bool {
    let created = (claims.exp - REFRESH_MAX_AGE) as u64;
    &&& (claims.usage != TokenUsage::Refresh || claims.exp < REFRESH_MAX_AGE) ==> (r == Err::<
        SessionTokens,
        SessionError,
    >(SessionError::BadRefreshToken) && post_t == pre_t && post_r == pre_r)
    &&& (claims.usage == TokenUsage::Refresh && claims.exp >= REFRESH_MAX_AGE
        && !pre_r.has_marker(claims.id, created)) ==> (r == Err::<SessionTokens, SessionError>(
        SessionError::BadRefreshToken,
    ) && post_t == pre_t && (forall|u: Seq<char>, c: u64|
        #[trigger] post_r.has_marker(u, c) <==> (pre_r.has_marker(u, c) && !(u == claims.id && c
            == created))))
    &&& (claims.usage == TokenUsage::Refresh && claims.exp >= REFRESH_MAX_AGE
        && pre_r.has_marker(claims.id, created)) ==> {
        ||| (r matches Ok(t) && spec_tokens_ok(t, public_pem, claims.id, now)
            && spec_session_written(pre_t, post_t, claims.id, now, t.secret@) && (forall|
            u: Seq<char>,
            c: u64,
        |
            #[trigger] post_r.has_marker(u, c) <==> ((pre_r.has_marker(u, c) && !(u == claims.id
                && c == created)) || (u == claims.id && c == now))))
        ||| (r == Err::<SessionTokens, SessionError>(SessionError::SigningError) && post_t == pre_t
            && (forall|u: Seq<char>, c: u64|
            #[trigger] post_r.has_marker(u, c) <==> (pre_r.has_marker(u, c) && !(u == claims.id
                && c == created))))
    }
}

/// One rotation step, gated by the single-use refresh marker: the claim must
/// carry refresh usage, and the marker keyed by the claim's subject and
/// original issuance instant must still be unused — consuming it in the same
/// step — before a new session is minted.
pub fn rotate(
    token_cache: &mut TokenCache,
    refresh_cache: &mut RefreshCache,
    jwt: &Jwt,
    refresh: &TokenClaims,
    now: u64,
) -> (r: Result<SessionTokens, SessionError>)
    requires
        now + REFRESH_MAX_AGE <= u64::MAX,
    ensures
        spec_rotate_rel(
            *old(token_cache),
            *final(token_cache),
            *old(refresh_cache),
            *final(refresh_cache),
            jwt.spec_public_pem(),
            refresh@,
            now,
            r,
        ),
{
    if !(refresh.usage == TokenUsage::Refresh) {
        return Err(SessionError::BadRefreshToken);
    }
    if refresh.exp < REFRESH_MAX_AGE {
        return Err(SessionError::BadRefreshToken);
    }
    let created = refresh.exp - REFRESH_MAX_AGE;
    let permitted = refresh_cache.permit(
        &RefreshCacheQuery { user_id: refresh.id.clone(), created_at: created },
    );
    if !permitted {
        return Err(SessionError::BadRefreshToken);
    }
    create(token_cache, refresh_cache, jwt, refresh.id.clone(), now)
}

/// A session just created authorizes: the membership test under the returned
/// issuance timestamp and secret reports true at any instant within the
/// access-token lifetime — in particular immediately.
pub proof fn lemma_created_session_authorizes(
    pre_t: TokenCache,
    post_t: TokenCache,
    id: Seq<char>,
    now: u64,
    t: SessionTokens,
    later: u64,
)
    requires
        spec_session_written(pre_t, post_t, id, now, t.secret@),
        t.created_at == now,
        later - now <= TOKEN_MAX_AGE,
    ensures
        spec_authorize_result(post_t, id, t.created_at, t.secret@, later),
{
    assert(post_t.has_session(id, now, t.secret@));
    assert(session_live(now, later));
}

/// Rotating twice with the same refresh claims cannot succeed twice: after a
/// successful rotation the original marker is consumed, so the second call is
/// refused outright — unless the first rotation happened at the very instant
/// the claims were originally issued, which would re-create the same marker.
pub proof fn lemma_rotate_replay_rejected(
    t0: TokenCache,
    t1: TokenCache,
    t2: TokenCache,
    r0: RefreshCache,
    r1: RefreshCache,
    r2: RefreshCache,
    public_pem: Seq<u8>,
    claims: ClaimsModel,
    now1: u64,
    now2: u64,
    res1: Result<SessionTokens, SessionError>,
    res2: Result<SessionTokens, SessionError>,
)
    requires
        spec_rotate_rel(t0, t1, r0, r1, public_pem, claims, now1, res1),
        spec_rotate_rel(t1, t2, r1, r2, public_pem, claims, now2, res2),
        res1 is Ok,
        now1 != claims.exp - REFRESH_MAX_AGE,
    ensures
        res2 == Err::<SessionTokens, SessionError>(SessionError::BadRefreshToken),
{
    let created = (claims.exp - REFRESH_MAX_AGE) as u64;
    assert(claims.usage == TokenUsage::Refresh && claims.exp >= REFRESH_MAX_AGE);
    assert(!r1.has_marker(claims.id, created));
}

} // verus!
