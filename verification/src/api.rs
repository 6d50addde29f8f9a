//! The decisions of the daemon's HTTP API: which requests need the token,
//! and how many history entries a request asks for. Serving requests is
//! the caller's.

use crate::config::settings::opt_view;
use crate::text::chars_of;
use vstd::prelude::*;

verus! {

/// A request may proceed: no token is configured, or the request only
/// reads (`GET` or `HEAD`), or it presents the token.
pub open spec fn authorized(
    token: Option<Seq<char>>,
    method: Seq<char>,
    provided: Option<Seq<char>>,
) -> bool {
    match token {
        None => true,
        Some(t) => method == "GET"@ || method == "HEAD"@ || provided == Some(t),
    }
}

/// Whether a request with the given method, presenting `provided` in its
/// `Runtime-Id` header (when it has one that is text), may proceed.
pub fn request_authorized(api_token: Option<&str>, method: &str, provided: Option<&str>) -> (r:
    bool)
    ensures
        r == authorized(opt_view(api_token), method@, opt_view(provided)),
{
    match api_token {
        None => true,
        Some(secret) => {
            if crate::text::str_eq(method, "GET") || crate::text::str_eq(method, "HEAD") {
                true
            } else {
                match provided {
                    Some(p) => crate::text::str_eq(p, secret),
                    None => false,
                }
            }
        },
    }
}

/// A decimal digit.
pub open spec fn is_digit(c: char) -> bool {
    '0' <= c && c <= '9'
}

/// The value of a sequence of decimal digits.
pub open spec fn digits_value(s: Seq<char>) -> nat
    decreases s.len(),
{
    if s.len() == 0 {
        0
    } else {
        digits_value(s.drop_last()) * 10 + ((s.last() as int) - ('0' as int)) as nat
    }
}

/// The digits of an unsigned number's text: without a leading `+`.
pub open spec fn unsigned_digits(s: Seq<char>) -> Seq<char> {
    if s.len() > 0 && s[0] == '+' {
        s.drop_first()
    } else {
        s
    }
}

/// The value `usize::from_str` reads: an optional `+` and at least one
/// decimal digit, nothing else, and a value that fits.
pub open spec fn parsed_usize(s: Seq<char>) -> Option<usize> {
    let d = unsigned_digits(s);
    if d.len() > 0 && (forall|i: int| 0 <= i < d.len() ==> is_digit(#[trigger] d[i]))
        && digits_value(d) <= usize::MAX {
        Some(digits_value(d) as usize)
    } else {
        None
    }
}

/// A prefix of digits is worth no more than the whole.
pub proof fn lemma_digits_prefix(s: Seq<char>, j: int)
    requires
        0 <= j <= s.len(),
        forall|i: int| 0 <= i < s.len() ==> is_digit(#[trigger] s[i]),
    ensures
        digits_value(s.take(j)) <= digits_value(s),
    decreases s.len(),
{
    if j < s.len() {
        assert(s.take(j) =~= s.drop_last().take(j));
        assert forall|i: int| 0 <= i < s.drop_last().len() implies is_digit(#[trigger] s.drop_last()[i]) by {
            assert(s.drop_last()[i] == s[i]);
        }
        lemma_digits_prefix(s.drop_last(), j);
    } else {
        assert(s.take(j) =~= s);
    }
}

/// Read an unsigned number as `usize::from_str` does.
pub fn parse_usize(text: &str) -> (r: Option<usize>)
    ensures
        r == parsed_usize(text@),
{
    let c = chars_of(text);
    let n = c.len();
    let start: usize = if n > 0 && c[0] == '+' {
        1
    } else {
        0
    };
    let ghost d = c@.subrange(start as int, n as int);
    assert(d =~= unsigned_digits(c@));
    if start == n {
        return None;
    }
    let mut i: usize = start;
    while i < n
        invariant
            start <= i <= n,
            n == c@.len(),
            d == c@.subrange(start as int, n as int),
            d == unsigned_digits(text@),
            forall|k: int| 0 <= k < i - start ==> is_digit(#[trigger] d[k]),
        decreases n - i,
    {
        if !('0' <= c[i] && c[i] <= '9') {
            assert(d[i - start] == c@[i as int]);
            assert(!is_digit(d[i - start]));
            return None;
        }
        i = i + 1;
    }
    let mut acc: u128 = 0;
    let mut k: usize = start;
    while k < n
        invariant
            start <= k <= n,
            n == c@.len(),
            d == c@.subrange(start as int, n as int),
            d == unsigned_digits(text@),
            forall|j: int| 0 <= j < d.len() ==> is_digit(#[trigger] d[j]),
            acc == digits_value(d.take(k - start)),
            acc <= usize::MAX,
        decreases n - k,
    {
        assert(d.take(k + 1 - start).drop_last() =~= d.take(k - start));
        assert(d.take(k + 1 - start).last() == c@[k as int]);
        assert(d[k - start] == c@[k as int]);
        assert(is_digit(d[k - start]));
        let digit: u128 = (c[k] as u32 - '0' as u32) as u128;
        assert(digit == ((c@[k as int] as int) - ('0' as int)) as nat);
        let next: u128 = acc * 10 + digit;
        assert(next == digits_value(d.take(k + 1 - start)));
        if next > usize::MAX as u128 {
            proof {
                lemma_digits_prefix(d, k + 1 - start);
            }
            return None;
        }
        acc = next;
        k = k + 1;
    }
    assert(d.take(n - start) =~= d);
    Some(acc as usize)
}

/// How many history entries a request asks for: its `limit` parameter when
/// that reads as a number, 50 otherwise.
pub fn history_limit(param: Option<&str>) -> (r: usize)
    ensures
        r == match param {
            Some(p) => match parsed_usize(p@) {
                Some(n) => n,
                None => 50,
            },
            None => 50,
        },
{
    match param {
        Some(p) => match parse_usize(p) {
            Some(n) => n,
            None => 50,
        },
        None => 50,
    }
}

} // verus!
