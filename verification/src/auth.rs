//! The cache-checked request resolver.
//!
//! This resolver does not open signed tokens: the `token` cookie carries a
//! bare session credential — subject id, issuance timestamp and secret,
//! joined by dots — and a request is authorized exactly when that credential
//! is live in the session store at the moment of the check. Revocation is
//! therefore immediate: the signed-token resolver's `Authorized` can outlive
//! a revocation by up to the access-token lifetime, this one's cannot.

use vstd::prelude::*;
use vstd::string::*;

use crate::codec::{spec_find, all_digits, spec_decimal_val, parse_decimal, find_char_from};
use crate::cookies::{spec_find_sep, spec_segment_pair, find_sep, segment_pair};
use crate::token_cache::{
    TokenCache, TokenQuery, EntryModel, spec_authorize_result, session_live,
};

verus! {

/// How a request stands after its credential was checked against the store.
#[derive(Clone, Copy, PartialEq, Eq, Structural, Debug)]
pub enum AuthorizationStatus {
    Authorized,
    Unauthorized,
}

/// What the resolver hands to downstream handlers: the live credential, when
/// there is one.
pub struct AuthorizationInfo {
    pub token: Option<TokenQuery>,
    pub status: AuthorizationStatus,
}

/// The pieces of `s` between its dots, in order.
pub open spec fn spec_split_dots(s: Seq<char>) -> Seq<Seq<char>>
    decreases s.len(),
{
    let j = spec_find(s, '.', 0);
    if j < 0 || j + 1 > s.len() {
        seq![s]
    } else {
        seq![s.take(j)] + spec_split_dots(s.skip(j + 1))
    }
}

/// Splits a string at every dot.
pub fn split_dots<'a>(s: &'a str) -> (r: Vec<&'a str>)
    ensures
        r@.map_values(|t: &str| t@) == spec_split_dots(s@),
    decreases s@.len(),
{
    let len = s.unicode_len();
    match find_char_from(s, '.', 0) {
        None => {
            let mut v: Vec<&str> = Vec::new();
            v.push(s);
            proof {
                assert(v@.map_values(|t: &str| t@) =~= spec_split_dots(s@));
            }
            v
        },
        Some(j) => {
            let mut v: Vec<&str> = Vec::new();
            v.push(s.substring_char(0, j));
            let mut rest = split_dots(s.substring_char(j + 1, len));
            v.append(&mut rest);
            proof {
                assert(v@.map_values(|t: &str| t@) =~= spec_split_dots(s@));
            }
            v
        },
    }
}

/// What a dotted credential denotes: the first piece is the subject, the
/// second the issuance timestamp in decimal, the third the secret; further
/// pieces are ignored, fewer than three or a bad timestamp denote nothing.
pub open spec fn spec_parse_token_parts(parts: Seq<Seq<char>>) -> Option<EntryModel> {
    if parts.len() < 3 {
        None
    } else {
        let digits = parts[1];
        if digits.len() == 0 || !all_digits(digits) || spec_decimal_val(digits) > u64::MAX {
            None
        } else {
            Some(
                EntryModel {
                    user: parts[0],
                    created: spec_decimal_val(digits) as u64,
                    secret: parts[2],
                },
            )
        }
    }
}

/// Reads a split credential cookie into a session query.
pub fn parse_token(raw_token: Vec<&str>) -> (r: Option<TokenQuery>)
    ensures
        r matches Some(q) ==> spec_parse_token_parts(raw_token@.map_values(|t: &str| t@)) == Some(
            EntryModel { user: q.user_id@, created: q.created_at, secret: q.secret@ },
        ),
        r is None ==> spec_parse_token_parts(raw_token@.map_values(|t: &str| t@)) is None,
{
    if raw_token.len() < 3 {
        return None;
    }
    let created_at = match parse_decimal(raw_token[1]) {
        Some(v) => v,
        None => {
            return None;
        },
    };
    Some(
        TokenQuery {
            user_id: String::from_str(raw_token[0]),
            created_at,
            secret: String::from_str(raw_token[2]),
        },
    )
}

/// The value a segment contributes to the `token` slot.
pub open spec fn spec_segment_token(seg: Seq<char>) -> Option<Seq<char>> {
    match spec_segment_pair(seg) {
        Some(p) => if p.0 == "token"@ {
            Some(p.1)
        } else {
            None
        },
        None => None,
    }
}

/// The value of the first `token` cookie of the header, if any.
pub open spec fn spec_token_cookie_value(s: Seq<char>) -> Option<Seq<char>>
    decreases s.len(),
{
    let j = spec_find_sep(s, 0);
    if j < 0 || j + 2 > s.len() {
        spec_segment_token(s)
    } else {
        match spec_segment_token(s.take(j)) {
            Some(v) => Some(v),
            None => spec_token_cookie_value(s.skip(j + 2)),
        }
    }
}

/// Finds the first `token` cookie of the header.
pub fn find_token_cookie<'a>(s: &'a str) -> (r: Option<&'a str>)
    ensures
        r matches Some(v) ==> spec_token_cookie_value(s@) == Some(v@),
        r is None ==> spec_token_cookie_value(s@) is None,
    decreases s@.len(),
{
    proof {
        reveal_strlit("token");
    }
    let len = s.unicode_len();
    match find_sep(s) {
        None => segment_token(s),
        Some(j) => {
            let head = s.substring_char(0, j);
            match segment_token(head) {
                Some(v) => Some(v),
                None => find_token_cookie(s.substring_char(j + 2, len)),
            }
        },
    }
}

fn segment_token<'a>(seg: &'a str) -> (r: Option<&'a str>)
    ensures
        r matches Some(v) ==> spec_segment_token(seg@) == Some(v@),
        r is None ==> spec_segment_token(seg@) is None,
{
    proof {
        reveal_strlit("token");
    }
    let pair = match segment_pair(seg) {
        Some(p) => p,
        None => {
            return None;
        },
    };
    let name = String::from_str(pair.0);
    if name == String::from_str("token") {
        Some(pair.1)
    } else {
        None
    }
}

/// The credential the header carries, if its first `token` cookie parses.
pub open spec fn spec_resolve(s: Seq<char>) -> Option<EntryModel> {
    match spec_token_cookie_value(s) {
        Some(v) => spec_parse_token_parts(spec_split_dots(v)),
        None => None,
    }
}

/// Classifies a request by checking its bare credential cookie against the
/// session store: `Authorized` exactly when the credential is present there
/// and still live at `now`. The check itself applies the store's lazy expiry.
pub fn parse_cookies(cache: &mut TokenCache, cookies_str: &str, now: u64) -> (r: AuthorizationInfo)
    ensures
        spec_resolve(cookies_str@) is None ==> r.token is None && r.status
            == AuthorizationStatus::Unauthorized && *final(cache) == *old(cache),
        spec_resolve(cookies_str@) matches Some(q) ==> {
            &&& (r.status == AuthorizationStatus::Authorized <==> spec_authorize_result(
                *old(cache),
                q.user,
                q.created,
                q.secret,
                now,
            ))
            &&& (r.status == AuthorizationStatus::Authorized ==> (r.token matches Some(t)
                && t.user_id@ == q.user && t.created_at == q.created && t.secret@ == q.secret))
            &&& (r.status == AuthorizationStatus::Unauthorized ==> r.token is None)
            &&& (forall|u: Seq<char>, c: u64, s: Seq<char>|
                #[trigger] final(cache).has_session(u, c, s) <==> (old(cache).has_session(u, c, s)
                    && !(u == q.user && c == q.created && s == q.secret && !session_live(c, now))))
        },
{
    let value = match find_token_cookie(cookies_str) {
        Some(v) => v,
        None => {
            return AuthorizationInfo { token: None, status: AuthorizationStatus::Unauthorized };
        },
    };
    let parts = split_dots(value);
    let query = match parse_token(parts) {
        Some(q) => q,
        None => {
            return AuthorizationInfo { token: None, status: AuthorizationStatus::Unauthorized };
        },
    };
    if cache.authorize(&query, now) {
        AuthorizationInfo { token: Some(query), status: AuthorizationStatus::Authorized }
    } else {
        AuthorizationInfo { token: None, status: AuthorizationStatus::Unauthorized }
    }
}

} // verus!
