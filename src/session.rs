use vstd::prelude::*;

use crate::chars::{chars_of, string_of};
use crate::error::{ErrorKind, TrafficError};
use crate::numeral::{all_digits, decimal, digits_value, is_digit, lemma_decimal_digits, lemma_digits_value_nonneg, parse_u64_range, push_decimal, u64_of};

verus! {

/// Path of the login form, relative to the router's base address.
pub const LOGIN_PATH: &'static str = "/index/login.cgi";

/// Path of the status page that holds the traffic counters.
pub const OVERVIEW_PATH: &'static str = "/html/status/overview.asp";

/// Path that ends a session.
pub const LOGOUT_PATH: &'static str = "/index/logout.cgi";

/// The cookie sent with the login form.
pub const LOGIN_COOKIE: &'static str = "Language=en_us.";

/// `SessionID_R3=`: the name of the session cookie and its `=`.
pub open spec fn session_prefix() -> Seq<char> {
    seq!['S', 'e', 's', 's', 'i', 'o', 'n', 'I', 'D', '_', 'R', '3', '=']
}

/// `Language=en_us; `: what precedes the session cookie in later requests.
pub open spec fn language_prefix() -> Seq<char> {
    seq!['L', 'a', 'n', 'g', 'u', 'a', 'g', 'e', '=', 'e', 'n', '_', 'u', 's', ';', ' ']
}

/// The `Cookie` header of an authenticated request.
pub open spec fn session_cookie_text(token: u64) -> Seq<char> {
    language_prefix() + session_prefix() + decimal(token as nat)
}

/// `k` ends the cookie's name-value pair in the `Set-Cookie` value `h`: it is
/// the first `;`, or the end of `h`.
pub open spec fn is_pair_end(h: Seq<char>, k: int) -> bool {
    &&& 0 <= k <= h.len()
    &&& k == h.len() || h[k] == ';'
    &&& forall|i: int| 0 <= i < k ==> h[i] != ';'
}

/// The name-value pair at the start of a `Set-Cookie` value.
pub open spec fn cookie_pair(h: Seq<char>) -> Seq<char> {
    h.subrange(0, choose|k: int| is_pair_end(h, k))
}

/// The session token that a `Set-Cookie` value carries: the pair must be
/// `SessionID_R3=` and an unsigned integer.
pub open spec fn session_token(h: Seq<char>) -> Option<u64> {
    let pair = cookie_pair(h);
    if pair.len() >= session_prefix().len() && pair.subrange(0, session_prefix().len() as int)
        == session_prefix() {
        u64_of(pair.subrange(session_prefix().len() as int, pair.len() as int))
    } else {
        None
    }
}

proof fn lemma_pair_end_unique(h: Seq<char>, k1: int, k2: int)
    requires
        is_pair_end(h, k1),
        is_pair_end(h, k2),
    ensures
        k1 == k2,
{
    if k1 < k2 {
        assert(h[k1] != ';');
    } else if k2 < k1 {
        assert(h[k2] != ';');
    }
}

/// The `Cookie` header sent with an authenticated request:
/// `Language=en_us; SessionID_R3=<token>`.
pub fn session_cookie(token: u64) -> (r: String)
    ensures
        r@ == session_cookie_text(token),
{
    let mut out: Vec<char> = Vec::new();
    let prefix = chars_of("Language=en_us; SessionID_R3=");
    proof {
        reveal_strlit("Language=en_us; SessionID_R3=");
    }
    assert(prefix@ =~= language_prefix() + session_prefix());
    let mut i: usize = 0;
    while i < prefix.len()
        invariant
            i <= prefix@.len(),
            out@ == prefix@.subrange(0, i as int),
        decreases prefix@.len() - i,
    {
        out.push(prefix[i]);
        i = i + 1;
        assert(out@ =~= prefix@.subrange(0, i as int));
    }
    assert(out@ =~= prefix@);
    push_decimal(&mut out, token);
    string_of(&out)
}

/// The session token of a login response, from its `Set-Cookie` header
/// value. Fails with a protocol error where there is no such header, where
/// the cookie it sets is not `SessionID_R3`, or where its value is not an
/// unsigned integer.
pub fn parse_session_cookie(set_cookie: Option<&str>) -> (r: Result<u64, TrafficError>)
    ensures
        match set_cookie {
            None => r matches Err(e) && e.kind == ErrorKind::Protocol,
            Some(h) => match session_token(h@) {
                Some(t) => r == Ok::<u64, TrafficError>(t),
                None => r matches Err(e) && e.kind == ErrorKind::Protocol,
            },
        },
{
    let header = match set_cookie {
        Some(h) => h,
        None => {
            return Err(TrafficError::with_kind(ErrorKind::Protocol, "Did not receive a new cookie"));
        },
    };
    let h = chars_of(header);
    let mut end: usize = 0;
    while end < h.len() && h[end] != ';'
        invariant
            end <= h@.len(),
            h@ == header@,
            forall|i: int| 0 <= i < end ==> h@[i] != ';',
        decreases h@.len() - end,
    {
        end = end + 1;
    }
    proof {
        assert(is_pair_end(h@, end as int));
        lemma_pair_end_unique(h@, end as int, choose|k: int| is_pair_end(h@, k));
    }
    let ghost pair = h@.subrange(0, end as int);
    assert(pair == cookie_pair(header@));
    let name = chars_of("SessionID_R3=");
    proof {
        reveal_strlit("SessionID_R3=");
    }
    assert(name@ =~= session_prefix());
    if end < name.len() {
        return Err(TrafficError::with_kind(ErrorKind::Protocol, "Did not receive a new session id"));
    }
    let mut i: usize = 0;
    while i < name.len()
        invariant
            i <= name@.len() <= end <= h@.len(),
            name@ == session_prefix(),
            pair == h@.subrange(0, end as int),
            pair == cookie_pair(header@),
            set_cookie == Some(header),
            h@ == header@,
            forall|j: int| 0 <= j < i ==> h@[j] == name@[j],
        decreases name@.len() - i,
    {
        if h[i] != name[i] {
            assert(pair.subrange(0, session_prefix().len() as int)[i as int] != session_prefix()[i as int]);
            return Err(TrafficError::with_kind(ErrorKind::Protocol, "Did not receive a new session id"));
        }
        i = i + 1;
    }
    assert(pair.subrange(0, session_prefix().len() as int) =~= session_prefix());
    assert(h@.subrange(name.len() as int, end as int) =~= pair.subrange(
        session_prefix().len() as int,
        pair.len() as int,
    ));
    match parse_u64_range(&h, name.len(), end) {
        Some(token) => Ok(token),
        None => Err(TrafficError::with_kind(ErrorKind::Protocol, "Session id is not a number")),
    }
}

/// A login response whose `Set-Cookie` value is `SessionID_R3=` and a
/// string of decimal digits, then `;` and anything, carries exactly the
/// number that those digits denote; a value without a `;` likewise.
pub proof fn lemma_session_token_exact(digits: Seq<char>, rest: Seq<char>)
    requires
        digits.len() > 0,
        all_digits(digits),
        digits_value(digits) <= u64::MAX,
    ensures
        session_token(session_prefix() + digits + seq![';'] + rest) == Some(
            digits_value(digits) as u64,
        ),
        session_token(session_prefix() + digits) == Some(digits_value(digits) as u64),
{
    let p = session_prefix();
    let pd = p + digits;
    assert forall|i: int| 0 <= i < pd.len() implies pd[i] != ';' by {
        if i >= p.len() {
            assert(pd[i] == digits[i - p.len()]);
            assert(is_digit(digits[i - p.len()]));
        }
    }
    let h = pd + seq![';'] + rest;
    assert(is_pair_end(h, pd.len() as int));
    lemma_pair_end_unique(h, pd.len() as int, choose|k: int| is_pair_end(h, k));
    assert(cookie_pair(h) =~= pd);
    assert(is_pair_end(pd, pd.len() as int));
    lemma_pair_end_unique(pd, pd.len() as int, choose|k: int| is_pair_end(pd, k));
    assert(cookie_pair(pd) =~= pd);
    assert(pd.subrange(0, p.len() as int) =~= p);
    assert(pd.subrange(p.len() as int, pd.len() as int) =~= digits);
    assert(digits[0] != '+');
    lemma_digits_value_nonneg(digits);
}

/// The token that `session_cookie` sends is the one that a login response
/// carrying it in `SessionID_R3` gives back.
pub proof fn lemma_session_token_round_trip(token: u64, rest: Seq<char>)
    ensures
        session_token(session_prefix() + decimal(token as nat) + seq![';'] + rest) == Some(token),
{
    lemma_decimal_digits(token as nat);
    lemma_session_token_exact(decimal(token as nat), rest);
}

/// A `Set-Cookie` value whose pair does not start with `SessionID_R3=`
/// carries no session token, so the login fails with a protocol error.
pub proof fn lemma_session_name_required(h: Seq<char>)
    requires
        !(cookie_pair(h).len() >= session_prefix().len() && cookie_pair(h).subrange(
            0,
            session_prefix().len() as int,
        ) == session_prefix()),
    ensures
        session_token(h) is None,
{
}

} // verus!
