//! Textual encoding of signed-token payloads.
//!
//! A payload is a single line of text: a one-character usage tag, a dot, the
//! expiry timestamp in decimal, a dot, and the subject id (which may itself
//! contain dots, so parsing takes the first two dots as separators and leaves
//! the rest to the id). Serialisation and parsing are exact inverses, which
//! `lemma_payload_round_trip` states.

use vstd::prelude::*;
use vstd::string::*;

verus! {

/// What a signed token is for: granting access, or minting a new session.
#[derive(Clone, Copy, PartialEq, Eq, Structural, Debug)]
pub enum TokenUsage {
    Authorize,
    Refresh,
}

/// The signed payload of a token: usage tag, subject id, expiry timestamp
/// (seconds since the Unix epoch).
pub struct TokenClaims {
    pub usage: TokenUsage,
    pub id: String,
    pub exp: u64,
}

/// The mathematical value of a `TokenClaims`.
pub ghost struct ClaimsModel {
    pub usage: TokenUsage,
    pub id: Seq<char>,
    pub exp: u64,
}

impl View for TokenClaims {
    type V = ClaimsModel;

    open spec fn view(&self) -> ClaimsModel {
        ClaimsModel { usage: self.usage, id: self.id@, exp: self.exp }
    }
}

pub open spec fn spec_option_model(r: Option<TokenClaims>) -> Option<ClaimsModel> {
    match r {
        Some(c) => Some(c@),
        None => None,
    }
}

// ---------------------------------------------------------------------------
// Decimal encoding of u64 values.
// ---------------------------------------------------------------------------

pub open spec fn spec_digit_char(d: nat) -> char {
    if d == 0 { '0' }
    else if d == 1 { '1' }
    else if d == 2 { '2' }
    else if d == 3 { '3' }
    else if d == 4 { '4' }
    else if d == 5 { '5' }
    else if d == 6 { '6' }
    else if d == 7 { '7' }
    else if d == 8 { '8' }
    else { '9' }
}

/// The usual decimal rendering of `n`, with no leading zeroes (except for 0).
pub open spec fn spec_decimal(n: nat) -> Seq<char>
    decreases n,
{
    if n < 10 {
        seq![spec_digit_char(n)]
    } else {
        spec_decimal(n / 10) + seq![spec_digit_char(n % 10)]
    }
}

pub open spec fn is_decimal_digit(c: char) -> bool {
    '0' <= c && c <= '9'
}

pub open spec fn spec_digit_val(c: char) -> nat {
    (c as int - '0' as int) as nat
}

pub open spec fn all_digits(s: Seq<char>) -> bool {
    forall|i: int| 0 <= i < s.len() ==> is_decimal_digit(#[trigger] s[i])
}

/// The numeric value of a string of decimal digits.
pub open spec fn spec_decimal_val(s: Seq<char>) -> nat
    decreases s.len(),
{
    if s.len() == 0 {
        0
    } else {
        spec_decimal_val(s.drop_last()) * 10 + spec_digit_val(s.last())
    }
}

fn digit_str(d: u64) -> (r: &'static str)
    requires
        d < 10,
    ensures
        r@ =~= seq![spec_digit_char(d as nat)],
{
    proof {
        reveal_strlit("0");
        reveal_strlit("1");
        reveal_strlit("2");
        reveal_strlit("3");
        reveal_strlit("4");
        reveal_strlit("5");
        reveal_strlit("6");
        reveal_strlit("7");
        reveal_strlit("8");
        reveal_strlit("9");
    }
    match d {
        0 => "0",
        1 => "1",
        2 => "2",
        3 => "3",
        4 => "4",
        5 => "5",
        6 => "6",
        7 => "7",
        8 => "8",
        _ => "9",
    }
}

/// Appends the decimal rendering of `n` to `s`.
pub fn push_decimal(s: &mut String, n: u64)
    ensures
        final(s)@ == old(s)@ + spec_decimal(n as nat),
    decreases n,
{
    if n >= 10 {
        push_decimal(s, n / 10);
    }
    let d = digit_str(n % 10);
    s.append(d);
    proof {
        if n < 10 {
            assert(n % 10 == n);
            assert(final(s)@ =~= old(s)@ + spec_decimal(n as nat));
        } else {
            assert(final(s)@ =~= old(s)@ + spec_decimal(n as nat));
        }
    }
}

pub fn u64_to_string(n: u64) -> (r: String)
    ensures
        r@ == spec_decimal(n as nat),
{
    let mut s = String::new();
    push_decimal(&mut s, n);
    proof {
        assert(s@ =~= spec_decimal(n as nat));
    }
    s
}

/// Every prefix of a digit string denotes no more than the whole string.
proof fn lemma_decimal_val_prefix_le(s: Seq<char>, i: int)
    requires
        0 <= i <= s.len(),
    ensures
        spec_decimal_val(s.take(i)) <= spec_decimal_val(s),
    decreases s.len() - i,
{
    if i < s.len() {
        lemma_decimal_val_prefix_le(s, i + 1);
        assert(s.take(i + 1).drop_last() =~= s.take(i));
        assert(s.take(i + 1).last() == s[i]);
        assert(spec_decimal_val(s.take(i)) <= spec_decimal_val(s.take(i)) * 10 + spec_digit_val(
            s[i],
        ));
    } else {
        assert(s.take(i) =~= s);
    }
}

/// Parses a whole string as an unsigned decimal number. Returns `None` when
/// the string is empty, holds a non-digit, or denotes more than `u64::MAX`.
pub fn parse_decimal(s: &str) -> (r: Option<u64>)
    ensures
        r matches Some(v) ==> s@.len() > 0 && all_digits(s@) && v == spec_decimal_val(s@),
        r is None ==> s@.len() == 0 || !all_digits(s@) || spec_decimal_val(s@) > u64::MAX,
{
    let len = s.unicode_len();
    if len == 0 {
        return None;
    }
    let mut val: u64 = 0;
    let mut i: usize = 0;
    while i < len
        invariant
            0 <= i <= len,
            len == s@.len(),
            all_digits(s@.take(i as int)),
            val == spec_decimal_val(s@.take(i as int)),
        decreases len - i,
    {
        let c = s.get_char(i);
        let u = c as u32;
        if u < 48 || u > 57 {
            proof {
                assert(!is_decimal_digit(s@[i as int]));
            }
            return None;
        }
        let d = (u - 48) as u64;
        proof {
            assert(is_decimal_digit(s@[i as int]));
            assert(d == spec_digit_val(s@[i as int]));
        }
        if val > (u64::MAX - d) / 10 {
            proof {
                assert(val * 10 + d > u64::MAX) by (nonlinear_arith)
                    requires
                        val > (u64::MAX - d) / 10,
                        d <= 9,
                        val <= u64::MAX,
                ;
                assert(s@.take(i as int + 1).drop_last() =~= s@.take(i as int));
                assert(spec_decimal_val(s@.take(i as int + 1)) > u64::MAX);
                lemma_decimal_val_prefix_le(s@, i as int + 1);
            }
            return None;
        }
        proof {
            assert(val * 10 + d <= u64::MAX) by (nonlinear_arith)
                requires
                    val <= (u64::MAX - d) / 10,
                    d <= 9,
            ;
            assert(s@.take(i as int + 1).drop_last() =~= s@.take(i as int));
        }
        val = val * 10 + d;
        i = i + 1;
    }
    proof {
        assert(s@.take(len as int) =~= s@);
    }
    Some(val)
}

/// Decimal rendering and parsing are inverses.
pub proof fn lemma_decimal_round_trip(n: nat)
    ensures
        spec_decimal(n).len() > 0,
        all_digits(spec_decimal(n)),
        spec_decimal_val(spec_decimal(n)) == n,
    decreases n,
{
    if n < 10 {
        let s = spec_decimal(n);
        assert(s =~= seq![spec_digit_char(n)]);
        assert(s.len() == 1);
        assert(s.last() == spec_digit_char(n));
        assert(s.drop_last().len() == 0);
        assert(spec_decimal_val(s.drop_last()) == 0);
        assert(spec_decimal_val(s) == spec_digit_val(spec_digit_char(n)));
    } else {
        lemma_decimal_round_trip(n / 10);
        let prefix = spec_decimal(n / 10);
        let whole = spec_decimal(n);
        assert(whole =~= prefix + seq![spec_digit_char(n % 10)]);
        assert(whole.drop_last() =~= prefix);
        assert(whole.last() == spec_digit_char(n % 10));
        assert(spec_digit_val(spec_digit_char(n % 10)) == n % 10);
        assert(spec_decimal_val(whole) == (n / 10) * 10 + n % 10);
        assert((n / 10) * 10 + n % 10 == n) by (nonlinear_arith);
    }
}

} // verus!

verus! {

// ---------------------------------------------------------------------------
// The payload grammar: tag '.' expiry '.' id
// ---------------------------------------------------------------------------

pub open spec fn spec_usage_char(u: TokenUsage) -> char {
    match u {
        TokenUsage::Authorize => 'A',
        TokenUsage::Refresh => 'R',
    }
}

pub open spec fn spec_usage_of(c: char) -> Option<TokenUsage> {
    if c == 'A' {
        Some(TokenUsage::Authorize)
    } else if c == 'R' {
        Some(TokenUsage::Refresh)
    } else {
        None
    }
}

/// The exact text that is signed for a given set of claims.
pub open spec fn spec_payload(c: ClaimsModel) -> Seq<char> {
    seq![spec_usage_char(c.usage), '.'] + spec_decimal(c.exp as nat) + seq!['.'] + c.id
}

/// Index of the first occurrence of `c` in `s` at or after `i`, or -1.
pub open spec fn spec_find(s: Seq<char>, c: char, i: int) -> int
    decreases s.len() - i,
{
    if i < 0 || i >= s.len() {
        -1
    } else if s[i] == c {
        i
    } else {
        spec_find(s, c, i + 1)
    }
}

/// Index of the last occurrence of `c` in `s`, or -1.
pub open spec fn spec_rfind(s: Seq<char>, c: char) -> int
    decreases s.len(),
{
    if s.len() == 0 {
        -1
    } else if s.last() == c {
        s.len() - 1
    } else {
        spec_rfind(s.drop_last(), c)
    }
}

/// `spec_find` lands exactly on the first occurrence.
pub proof fn lemma_find_first(s: Seq<char>, c: char, i: int, k: int)
    requires
        0 <= i <= k < s.len(),
        s[k] == c,
        forall|m: int| i <= m < k ==> s[m] != c,
    ensures
        spec_find(s, c, i) == k,
    decreases k - i,
{
    if i < k {
        lemma_find_first(s, c, i + 1, k);
    }
}

/// `spec_rfind` lands exactly on the last occurrence.
pub proof fn lemma_rfind_last(s: Seq<char>, c: char, k: int)
    requires
        0 <= k < s.len(),
        s[k] == c,
        forall|m: int| k < m < s.len() ==> s[m] != c,
    ensures
        spec_rfind(s, c) == k,
    decreases s.len(),
{
    if k == s.len() - 1 {
    } else {
        assert(s.last() != c);
        assert(s.drop_last()[k] == c);
        lemma_rfind_last(s.drop_last(), c, k);
    }
}

/// Finds the first occurrence of `c` at or after `from`.
pub fn find_char_from(s: &str, c: char, from: usize) -> (r: Option<usize>)
    requires
        from <= s@.len(),
    ensures
        r matches Some(j) ==> from <= j < s@.len() && j == spec_find(s@, c, from as int),
        r is None ==> spec_find(s@, c, from as int) == -1,
{
    let len = s.unicode_len();
    let mut j = from;
    while j < len
        invariant
            from <= j <= len,
            len == s@.len(),
            spec_find(s@, c, from as int) == spec_find(s@, c, j as int),
        decreases len - j,
    {
        if s.get_char(j) == c {
            return Some(j);
        }
        j = j + 1;
    }
    None
}

/// Finds the last dot of the string.
pub fn rfind_dot(s: &str) -> (r: Option<usize>)
    ensures
        r matches Some(j) ==> j < s@.len() && j == spec_rfind(s@, '.'),
        r is None ==> spec_rfind(s@, '.') == -1,
{
    let len = s.unicode_len();
    proof {
        assert(s@.take(len as int) =~= s@);
    }
    let mut j = len;
    while j > 0
        invariant
            0 <= j <= len,
            len == s@.len(),
            spec_rfind(s@, '.') == spec_rfind(s@.take(j as int), '.'),
        decreases j,
    {
        let c = s.get_char(j - 1);
        proof {
            assert(s@.take(j as int).last() == s@[j - 1]);
            assert(s@.take(j as int).drop_last() =~= s@.take(j as int - 1));
        }
        if c == '.' {
            return Some(j - 1);
        }
        j = j - 1;
    }
    proof {
        assert(s@.take(0).len() == 0);
    }
    None
}

fn usage_str(u: TokenUsage) -> (r: &'static str)
    ensures
        r@ =~= seq![spec_usage_char(u)],
{
    proof {
        reveal_strlit("A");
        reveal_strlit("R");
    }
    match u {
        TokenUsage::Authorize => "A",
        TokenUsage::Refresh => "R",
    }
}

/// Renders the claims in the exact form given by `spec_payload`.
pub fn payload_string(claims: &TokenClaims) -> (r: String)
    ensures
        r@ == spec_payload(claims@),
{
    proof {
        reveal_strlit(".");
    }
    let mut s = String::new();
    s.append(usage_str(claims.usage));
    s.append(".");
    push_decimal(&mut s, claims.exp);
    s.append(".");
    s.append(claims.id.as_str());
    proof {
        assert(s@ =~= spec_payload(claims@));
    }
    s
}

/// What a payload string means: `None` when it is not the rendering of any
/// claims, the claims otherwise.
pub open spec fn spec_parse_payload(s: Seq<char>) -> Option<ClaimsModel> {
    if s.len() < 2 {
        None
    } else if spec_usage_of(s[0]) is None {
        None
    } else if s[1] != '.' {
        None
    } else {
        let j = spec_find(s, '.', 2);
        if j < 0 {
            None
        } else {
            let digits = s.subrange(2, j);
            if digits.len() == 0 || !all_digits(digits) || spec_decimal_val(digits) > u64::MAX {
                None
            } else {
                Some(
                    ClaimsModel {
                        usage: spec_usage_of(s[0])->0,
                        exp: spec_decimal_val(digits) as u64,
                        id: s.subrange(j + 1, s.len() as int),
                    },
                )
            }
        }
    }
}

/// Parses a payload string back into claims.
pub fn parse_payload(s: &str) -> (r: Option<TokenClaims>)
    ensures
        spec_option_model(r) == spec_parse_payload(s@),
{
    let len = s.unicode_len();
    if len < 2 {
        return None;
    }
    let c0 = s.get_char(0);
    let usage = if c0 == 'A' {
        TokenUsage::Authorize
    } else if c0 == 'R' {
        TokenUsage::Refresh
    } else {
        return None;
    };
    if s.get_char(1) != '.' {
        return None;
    }
    let j = match find_char_from(s, '.', 2) {
        Some(j) => j,
        None => {
            return None;
        },
    };
    let digits = s.substring_char(2, j);
    let exp = match parse_decimal(digits) {
        Some(v) => v,
        None => {
            return None;
        },
    };
    let id = String::from_str(s.substring_char(j + 1, len));
    Some(TokenClaims { usage, id, exp })
}

/// Parsing a rendered payload gives back exactly the claims that were
/// rendered, whatever the subject id holds.
pub proof fn lemma_payload_round_trip(c: ClaimsModel)
    ensures
        spec_parse_payload(spec_payload(c)) == Some(c),
{
    let s = spec_payload(c);
    let d = spec_decimal(c.exp as nat);
    lemma_decimal_round_trip(c.exp as nat);
    assert(s[0] == spec_usage_char(c.usage));
    assert(s[1] == '.');
    assert(spec_usage_of(s[0]) == Some(c.usage));
    let k = 2 + d.len() as int;
    assert(s[k] == '.');
    assert(forall|m: int| 2 <= m < k ==> s[m] == d[m - 2]);
    assert(forall|m: int| 2 <= m < k ==> #[trigger] s[m] != '.' ) by {
        assert(forall|i: int| 0 <= i < d.len() ==> is_decimal_digit(#[trigger] d[i]));
    }
    lemma_find_first(s, '.', 2, k);
    assert(s.subrange(2, k) =~= d);
    assert(s.subrange(k + 1, s.len() as int) =~= c.id);
}

} // verus!
