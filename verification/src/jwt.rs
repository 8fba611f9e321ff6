//! Stateless signer/verifier for compact signed claims.
//!
//! A token is the payload text of `codec`, a dot, and an ES256 signature in
//! base64url text. Signing needs a private key; verification only the public
//! key, so verify-only deployments are possible. The codec knows nothing of
//! revocation: a verified signature and an unexpired timestamp are necessary,
//! not sufficient, for authorization.

use vstd::prelude::*;
use vstd::string::*;

use crate::codec::{
    TokenClaims, ClaimsModel, spec_payload, spec_parse_payload, spec_option_model, spec_rfind,
    payload_string, parse_payload, rfind_dot, lemma_payload_round_trip, lemma_rfind_last,
};

verus! {

/// Whether ES256 verification of `signature` over `message` succeeds under the
/// public key given as PEM bytes. Names the outcome of jsonwebtoken's
/// `crypto::verify`, which depends on these three values alone.
pub uninterp spec fn es256_verifies(
    public_pem: Seq<u8>,
    message: Seq<char>,
    signature: Seq<char>,
) -> bool;

/// Relies on jsonwebtoken's `DecodingKey::from_ec_pem` and `crypto::verify`
/// with ES256 under the crate's built-in RustCrypto provider: the outcome is a
/// function of the key bytes, the message and the signature alone. A PEM that
/// does not parse, a signature that is not base64url, and a cryptographically
/// wrong signature all report false.
#[verifier::external_body]
fn crypto_verify(signature: &str, message: &str, public_pem: &Vec<u8>) -> (r: bool)
    ensures
        r == es256_verifies(public_pem@, message@, signature@),
{
    match jsonwebtoken::DecodingKey::from_ec_pem(public_pem.as_slice()) {
        Ok(key) => jsonwebtoken::crypto::verify(
            signature,
            message.as_bytes(),
            &key,
            jsonwebtoken::Algorithm::ES256,
        ).unwrap_or(false),
        Err(_) => false,
    }
}

/// Relies on jsonwebtoken's `EncodingKey::from_ec_pem` and `crypto::sign` with
/// ES256: the returned signature is base64url text, so it never holds a dot.
/// Nothing more is assumed of it; `generate` checks the signature against the
/// public key before trusting it.
#[verifier::external_body]
fn crypto_sign(message: &str, private_pem: &Vec<u8>) -> (r: Option<String>)
    ensures
        r matches Some(sig) ==> !sig@.contains('.'),
{
    match jsonwebtoken::EncodingKey::from_ec_pem(private_pem.as_slice()) {
        Ok(key) => jsonwebtoken::crypto::sign(
            message.as_bytes(),
            &key,
            jsonwebtoken::Algorithm::ES256,
        ).ok(),
        Err(_) => None,
    }
}

/// Relies on jsonwebtoken's `get_current_timestamp`: the system clock as whole
/// seconds since the Unix epoch. Nothing is assumed of its value.
#[verifier::external_body]
pub fn current_timestamp() -> (r: u64) {
    jsonwebtoken::get_current_timestamp()
}

/// A well-formed token for the claims `c` under the public key `public_pem`:
/// the rendered payload, a dot, and a dot-free signature that verifies.
pub open spec fn spec_token_wf(t: Seq<char>, c: ClaimsModel, public_pem: Seq<u8>) -> bool {
    exists|sig: Seq<char>|
        t == spec_payload(c) + seq!['.'] + sig && !sig.contains('.') && #[trigger] es256_verifies(
            public_pem,
            spec_payload(c),
            sig,
        )
}

/// What verification of `t` at time `now` returns: the claims exactly when the
/// last-dot split of `t` yields a message whose signature verifies, the
/// message parses as a payload, and the expiry lies after `now`.
pub open spec fn spec_verify_token(t: Seq<char>, public_pem: Seq<u8>, now: u64) -> Option<
    ClaimsModel,
> {
    let k = spec_rfind(t, '.');
    if k < 0 {
        None
    } else {
        let msg = t.take(k);
        let sig = t.skip(k + 1);
        if !es256_verifies(public_pem, msg, sig) {
            None
        } else {
            match spec_parse_payload(msg) {
                Some(c) => if now < c.exp {
                    Some(c)
                } else {
                    None
                },
                None => None,
            }
        }
    }
}

/// Key material for the token codec, held as PEM bytes. The private key is
/// optional: without it the codec can only verify.
pub struct Jwt {
    private_pem: Option<Vec<u8>>,
    public_pem: Vec<u8>,
}

impl Jwt {
    pub closed spec fn spec_public_pem(&self) -> Seq<u8> {
        self.public_pem@
    }

    pub closed spec fn has_private_key(&self) -> bool {
        self.private_pem is Some
    }

    pub fn new(private_pem: Option<Vec<u8>>, public_pem: Vec<u8>) -> (r: Jwt)
        ensures
            r.spec_public_pem() == public_pem@,
            r.has_private_key() == (private_pem is Some),
    {
        Jwt { private_pem, public_pem }
    }

    /// Signs the claims. Returns `None` when no private key is configured,
    /// and when the configured keys fail to produce a verifiable signature;
    /// any returned token is well formed under this codec's public key.
    pub fn generate(&self, claims: &TokenClaims) -> (r: Option<String>)
        ensures
            !self.has_private_key() ==> r is None,
            r matches Some(t) ==> spec_token_wf(t@, claims@, self.spec_public_pem()),
    {
        proof {
            reveal_strlit(".");
        }
        let pem = match &self.private_pem {
            Some(p) => p,
            None => {
                return None;
            },
        };
        let msg = payload_string(claims);
        let sig = match crypto_sign(msg.as_str(), pem) {
            Some(s) => s,
            None => {
                return None;
            },
        };
        if !crypto_verify(sig.as_str(), msg.as_str(), &self.public_pem) {
            return None;
        }
        let mut t = msg;
        t.append(".");
        t.append(sig.as_str());
        proof {
            assert(t@ =~= spec_payload(claims@) + seq!['.'] + sig@);
            assert(es256_verifies(self.spec_public_pem(), spec_payload(claims@), sig@));
        }
        Some(t)
    }

    /// Opens a token. Returns the claims exactly when the signature verifies
    /// under the public key, the payload parses, and the token has not expired
    /// at `now`; `None` on any failure.
    pub fn verify(&self, token: &str, now: u64) -> (r: Option<TokenClaims>)
        ensures
            spec_option_model(r) == spec_verify_token(token@, self.spec_public_pem(), now),
    {
        let len = token.unicode_len();
        let k = match rfind_dot(token) {
            Some(k) => k,
            None => {
                return None;
            },
        };
        let msg = token.substring_char(0, k);
        let sig = token.substring_char(k + 1, len);
        if !crypto_verify(sig, msg, &self.public_pem) {
            return None;
        }
        let claims = match parse_payload(msg) {
            Some(c) => c,
            None => {
                return None;
            },
        };
        if now < claims.exp {
            Some(claims)
        } else {
            None
        }
    }
}

/// Round trip: any well-formed token for claims `c` verifies back to exactly
/// `c` at any time before the expiry.
pub proof fn lemma_token_round_trip(t: Seq<char>, c: ClaimsModel, public_pem: Seq<u8>, now: u64)
    requires
        spec_token_wf(t, c, public_pem),
        now < c.exp,
    ensures
        spec_verify_token(t, public_pem, now) == Some(c),
{
    let sig = choose|sig: Seq<char>|
        t == spec_payload(c) + seq!['.'] + sig && !sig.contains('.') && #[trigger] es256_verifies(
            public_pem,
            spec_payload(c),
            sig,
        );
    let p = spec_payload(c);
    let k = p.len() as int;
    assert(t[k] == '.');
    assert(forall|m: int| k < m < t.len() ==> t[m] == sig[m - k - 1]);
    assert(forall|m: int| k < m < t.len() ==> #[trigger] t[m] != '.') by {
        assert(forall|i: int| 0 <= i < sig.len() ==> sig[i] != '.');
    }
    lemma_rfind_last(t, '.', k);
    assert(t.take(k) =~= p);
    assert(t.skip(k + 1) =~= sig);
    lemma_payload_round_trip(c);
}

} // verus!

verus! {

/// Expiry is respected: whatever a token holds and whatever key it is checked
/// under, the claims a successful verification yields always expire strictly
/// after the instant of the check.
pub proof fn lemma_verify_respects_expiry(t: Seq<char>, public_pem: Seq<u8>, now: u64)
    ensures
        spec_verify_token(t, public_pem, now) matches Some(c) ==> now < c.exp,
{
}

} // verus!
