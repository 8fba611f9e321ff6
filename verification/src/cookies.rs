//! Cookie construction and the cookie-header grammar.
//!
//! Outgoing cookies carry the deployment's fixed attributes; `Max-Age` always
//! mirrors the corresponding token lifetime, so client-side cookie expiry and
//! server-side validity never diverge. Incoming `Cookie` headers are a list
//! of `name=value` segments separated by `"; "`; a segment's name is what
//! precedes its first `=`, its value the rest.

use vstd::prelude::*;
use vstd::string::*;

use crate::codec::{spec_decimal, spec_find, push_decimal};

verus! {

/// The exact text of an outgoing cookie: name, value, and the fixed attribute
/// tail with the given `Max-Age`.
pub open spec fn spec_cookie(name: Seq<char>, value: Seq<char>, max_age: u64) -> Seq<char> {
    name + "="@ + value
        + "; HttpOnly; SameSite=Lax; Secure; Path=/; Domain=.koii.space; Max-Age="@
        + spec_decimal(max_age as nat)
}

/// Builds an outgoing cookie string, character for character as
/// `spec_cookie` gives it.
pub fn consturct(name: &str, value: String, max_age: u64) -> (r: String)
    ensures
        r@ == spec_cookie(name@, value@, max_age),
{
    let mut s = String::from_str(name);
    s.append("=");
    s.append(value.as_str());
    s.append("; HttpOnly; SameSite=Lax; Secure; Path=/; Domain=.koii.space; Max-Age=");
    push_decimal(&mut s, max_age);
    proof {
        assert(s@ =~= spec_cookie(name@, value@, max_age));
    }
    s
}

/// The pair of cookies that erases a client's credentials: both cookie slots
/// emptied with `Max-Age=0`, so the browser drops them at once.
pub fn clear_tokens_header() -> (r: (String, String))
    ensures
        r.0@ == spec_cookie("token"@, Seq::<char>::empty(), 0),
        r.1@ == spec_cookie("refresh"@, Seq::<char>::empty(), 0),
{
    proof {
        reveal_strlit("");
    }
    (consturct("token", String::new(), 0), consturct("refresh", String::new(), 0))
}

/// Index of the first `"; "` segment separator at or after `i`, or -1.
pub open spec fn spec_find_sep(s: Seq<char>, i: int) -> int
    decreases s.len() - i,
{
    if i < 0 || i + 1 >= s.len() {
        -1
    } else if s[i] == ';' && s[i + 1] == ' ' {
        i
    } else {
        spec_find_sep(s, i + 1)
    }
}

/// Finds the first `"; "` separator of the header.
pub fn find_sep(s: &str) -> (r: Option<usize>)
    ensures
        r matches Some(j) ==> j + 1 < s@.len() && j == spec_find_sep(s@, 0),
        r is None ==> spec_find_sep(s@, 0) == -1,
{
    let len = s.unicode_len();
    if len < 2 {
        return None;
    }
    let mut j: usize = 0;
    while j + 1 < len
        invariant
            0 <= j,
            j + 1 <= len,
            len == s@.len(),
            spec_find_sep(s@, 0) == spec_find_sep(s@, j as int),
        decreases len - j,
    {
        if s.get_char(j) == ';' && s.get_char(j + 1) == ' ' {
            return Some(j);
        }
        j = j + 1;
    }
    None
}

/// The name and value of one cookie segment, split at its first `=`; `None`
/// when the segment has no `=`.
pub open spec fn spec_segment_pair(seg: Seq<char>) -> Option<(Seq<char>, Seq<char>)> {
    let j = spec_find(seg, '=', 0);
    if j < 0 {
        None
    } else {
        Some((seg.take(j), seg.skip(j + 1)))
    }
}

/// Splits one cookie segment into name and value.
pub fn segment_pair<'a>(seg: &'a str) -> (r: Option<(&'a str, &'a str)>)
    ensures
        r matches Some(p) ==> spec_segment_pair(seg@) == Some((p.0@, p.1@)),
        r is None ==> spec_segment_pair(seg@) is None,
{
    let len = seg.unicode_len();
    let j = match crate::codec::find_char_from(seg, '=', 0) {
        Some(j) => j,
        None => {
            return None;
        },
    };
    Some((seg.substring_char(0, j), seg.substring_char(j + 1, len)))
}

} // verus!
