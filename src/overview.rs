use vstd::prelude::*;

use crate::chars::{chars_of, string_of};
use crate::error::{ErrorKind, TrafficError};
use crate::numeral::{i64_of, parse_i64_range, parse_u64_range, u64_of};
use crate::types::Duration;

verus! {

#[verifier::external_type_specification]
#[verifier::external_body]
pub struct ExJsonError(serde_json::Error);

/// What serde_json makes of `text` read as a `serde_json::Value`: `None`
/// where it is no JSON; else `Some` of the string held by the member named
/// `key`, or `Some(None)` where the value is no object, has no such member,
/// or holds no string there.
pub uninterp spec fn json_string_member(text: Seq<char>, key: Seq<char>) -> Option<Option<Seq<char>>>;

/// Relies on `serde_json::from_str` into a `serde_json::Value`, then
/// `Value::get` with a string key and `Value::as_str`: the member's string,
/// as `json_string_member` names it.
#[verifier::external_body]
fn json_string_member_of(text: &str, key: &str) -> (r: Result<Option<String>, serde_json::Error>)
    ensures
        match json_string_member(text@, key@) {
            None => r is Err,
            Some(None) => r matches Ok(m) && m is None,
            Some(Some(v)) => r matches Ok(m) && m matches Some(s) && s@ == v,
        },
{
    let value: serde_json::Value = serde_json::from_str(text)?;
    Ok(value.get(key).and_then(|m| m.as_str()).map(|s| s.to_string()))
}

/// One reading of the router's counters.
#[derive(Debug, Clone, Copy, PartialEq, Eq, Structural)]
pub struct Overview {
    /// Bytes sent and received since the counter was last reset.
    pub cumulative_traffic: i64,
    /// How long the router's WAN session has been up, in seconds.
    pub uptime_seconds: u64,
}

impl Overview {
    pub fn uptime(&self) -> (r: Duration)
        ensures
            r@ == self.uptime_seconds as nat,
    {
        Duration::from_secs(self.uptime_seconds)
    }
}

/// `WanStatistics = {`: where the counters start in the status page.
pub open spec fn marker() -> Seq<char> {
    seq!['W', 'a', 'n', 'S', 't', 'a', 't', 'i', 's', 't', 'i', 'c', 's', ' ', '=', ' ', '{']
}

pub open spec fn up_key() -> Seq<char> {
    seq!['u', 'p', 'v', 'o', 'l', 'u', 'm', 'e']
}

pub open spec fn down_key() -> Seq<char> {
    seq!['d', 'o', 'w', 'n', 'v', 'o', 'l', 'u', 'm', 'e']
}

pub open spec fn live_key() -> Seq<char> {
    seq!['l', 'i', 'v', 'e', 'T', 'i', 'm', 'e']
}

pub open spec fn occurs_at(s: Seq<char>, p: Seq<char>, i: int) -> bool {
    0 <= i && i + p.len() <= s.len() && s.subrange(i, i + p.len()) == p
}

/// `i` is where `p` first occurs in `s`.
pub open spec fn is_first_occurrence(s: Seq<char>, p: Seq<char>, i: int) -> bool {
    occurs_at(s, p, i) && forall|j: int| 0 <= j < i ==> !occurs_at(s, p, j)
}

/// `k` is the first index from `from` on where `s` holds `c`.
pub open spec fn is_first_from(s: Seq<char>, c: char, from: int, k: int) -> bool {
    &&& from <= k < s.len()
    &&& s[k] == c
    &&& forall|j: int| from <= j < k ==> s[j] != c
}

pub open spec fn has_marker(s: Seq<char>) -> bool {
    exists|i: int| is_first_occurrence(s, marker(), i)
}

/// Where the object after the marker starts: at its `{`.
pub open spec fn object_start(s: Seq<char>) -> int {
    (choose|i: int| is_first_occurrence(s, marker(), i)) + marker().len() - 1
}

pub open spec fn has_closing_brace(s: Seq<char>) -> bool {
    exists|k: int| is_first_from(s, '}', object_start(s), k)
}

/// The object after the marker, from its `{` to the first `}`.
pub open spec fn statistics_object(s: Seq<char>) -> Seq<char> {
    s.subrange(object_start(s), (choose|k: int| is_first_from(s, '}', object_start(s), k)) + 1)
}

/// `s` with every `'` turned into `"`.
pub open spec fn double_quoted(s: Seq<char>) -> Seq<char> {
    Seq::new(s.len(), |i: int| if s[i] == '\'' { '"' } else { s[i] })
}

/// The reading that a JSON text of the counters gives: `upvolume` and
/// `downvolume` as signed byte counts, summed, and `liveTime` as seconds,
/// each a string member.
pub open spec fn overview_of(json: Seq<char>) -> Option<Overview> {
    match (
        json_string_member(json, up_key()),
        json_string_member(json, down_key()),
        json_string_member(json, live_key()),
    ) {
        (Some(Some(u)), Some(Some(d)), Some(Some(l))) => match (i64_of(u), i64_of(d), u64_of(l)) {
            (Some(up), Some(down), Some(live)) => if i64::MIN <= up + down <= i64::MAX {
                Some(Overview { cumulative_traffic: (up + down) as i64, uptime_seconds: live })
            } else {
                None
            },
            _ => None,
        },
        _ => None,
    }
}

/// The reading that a status page gives, where it gives one.
pub open spec fn page_overview(s: Seq<char>) -> Option<Overview> {
    if has_marker(s) && has_closing_brace(s) {
        overview_of(double_quoted(statistics_object(s)))
    } else {
        None
    }
}

proof fn lemma_first_occurrence_unique(s: Seq<char>, p: Seq<char>, i: int, j: int)
    requires
        is_first_occurrence(s, p, i),
        is_first_occurrence(s, p, j),
    ensures
        i == j,
{
}

proof fn lemma_first_from_unique(s: Seq<char>, c: char, from: int, k1: int, k2: int)
    requires
        is_first_from(s, c, from, k1),
        is_first_from(s, c, from, k2),
    ensures
        k1 == k2,
{
    if k1 < k2 {
        assert(s[k1] != c);
    } else if k2 < k1 {
        assert(s[k2] != c);
    }
}

/// Whether `p` occurs in `s` at `i`.
fn matches_at(s: &Vec<char>, p: &Vec<char>, i: usize) -> (r: bool)
    requires
        i + p@.len() <= s@.len(),
    ensures
        r == occurs_at(s@, p@, i as int),
{
    let n = s.len();
    let mut j: usize = 0;
    while j < p.len()
        invariant
            i + p@.len() <= s@.len(),
            n == s@.len(),
            j <= p@.len(),
            forall|k: int| 0 <= k < j ==> s@[i + k] == p@[k],
        decreases p@.len() - j,
    {
        if s[i + j] != p[j] {
            assert(s@.subrange(i as int, i + p@.len())[j as int] != p@[j as int]);
            return false;
        }
        j = j + 1;
    }
    assert(s@.subrange(i as int, i + p@.len()) =~= p@);
    true
}

/// Where `p` first occurs in `s`, if it does.
fn find_first(s: &Vec<char>, p: &Vec<char>) -> (r: Option<usize>)
    requires
        p@.len() > 0,
    ensures
        match r {
            Some(i) => is_first_occurrence(s@, p@, i as int),
            None => forall|i: int| !occurs_at(s@, p@, i),
        },
{
    if p.len() > s.len() {
        return None;
    }
    let n = s.len();
    let last: usize = n - p.len();
    let mut i: usize = 0;
    while i <= last
        invariant
            last + p@.len() == s@.len(),
            s@.len() <= usize::MAX,
            p@.len() > 0,
            forall|j: int| 0 <= j < i ==> !occurs_at(s@, p@, j),
        decreases last + 1 - i,
    {
        if matches_at(s, p, i) {
            return Some(i);
        }
        i = i + 1;
    }
    None
}

/// Where `c` first stands in `s` from `from` on, if it does.
fn find_char_from(s: &Vec<char>, c: char, from: usize) -> (r: Option<usize>)
    ensures
        match r {
            Some(k) => is_first_from(s@, c, from as int, k as int),
            None => forall|k: int| !is_first_from(s@, c, from as int, k),
        },
{
    let mut k: usize = from;
    while k < s.len()
        invariant
            from <= k,
            forall|j: int| from <= j < k ==> s@[j] != c,
        decreases s@.len() - k,
    {
        if s[k] == c {
            return Some(k);
        }
        k = k + 1;
    }
    proof {
        assert forall|k2: int| !is_first_from(s@, c, from as int, k2) by {
            if is_first_from(s@, c, from as int, k2) {
                assert(s@[k2] != c);
            }
        }
    }
    None
}

/// The reading from the JSON text of the counters, as `overview_of` gives it.
/// Fails with a parse error where that gives none.
pub fn overview_from_json(json: &str) -> (r: Result<Overview, TrafficError>)
    ensures
        match overview_of(json@) {
            Some(o) => r == Ok::<Overview, TrafficError>(o),
            None => r matches Err(e) && e.kind == ErrorKind::Parse,
        },
{
    proof {
        reveal_strlit("upvolume");
        reveal_strlit("downvolume");
        reveal_strlit("liveTime");
    }
    assert("upvolume"@ =~= up_key());
    assert("downvolume"@ =~= down_key());
    assert("liveTime"@ =~= live_key());
    let up_text = member_text(json, "upvolume")?;
    let down_text = member_text(json, "downvolume")?;
    let live_text = member_text(json, "liveTime")?;
    assert(up_text@.subrange(0, up_text@.len() as int) =~= up_text@);
    assert(down_text@.subrange(0, down_text@.len() as int) =~= down_text@);
    assert(live_text@.subrange(0, live_text@.len() as int) =~= live_text@);
    let up = match parse_i64_range(&up_text, 0, up_text.len()) {
        Some(v) => v,
        None => {
            return Err(TrafficError::with_kind(ErrorKind::Parse, "upvolume is not a number"));
        },
    };
    let down = match parse_i64_range(&down_text, 0, down_text.len()) {
        Some(v) => v,
        None => {
            return Err(TrafficError::with_kind(ErrorKind::Parse, "downvolume is not a number"));
        },
    };
    let live = match parse_u64_range(&live_text, 0, live_text.len()) {
        Some(v) => v,
        None => {
            return Err(TrafficError::with_kind(ErrorKind::Parse, "liveTime is not a number"));
        },
    };
    match up.checked_add(down) {
        Some(total) => Ok(Overview { cumulative_traffic: total, uptime_seconds: live }),
        None => Err(TrafficError::with_kind(ErrorKind::Parse, "traffic total is out of range")),
    }
}

/// The characters of the string member `key` of the JSON text, or a parse
/// error where there is none.
fn member_text(json: &str, key: &str) -> (r: Result<Vec<char>, TrafficError>)
    ensures
        match json_string_member(json@, key@) {
            Some(Some(v)) => r matches Ok(m) && m@ == v,
            _ => r matches Err(e) && e.kind == ErrorKind::Parse,
        },
{
    match json_string_member_of(json, key) {
        Ok(Some(s)) => Ok(chars_of(s.as_str())),
        Ok(None) => Err(TrafficError::with_kind(ErrorKind::Parse, "missing or non-string field in WanStatistics")),
        Err(_) => Err(TrafficError::with_kind(ErrorKind::Parse, "WanStatistics is not valid JSON")),
    }
}

/// The counters that the router's status page reports. The page must hold
/// `WanStatistics = {`; the object from that `{` to the next `}`, with its
/// single quotes made double, is read as JSON by `overview_from_json`.
pub fn extract_overview(text: &str) -> (r: Result<Overview, TrafficError>)
    ensures
        !has_marker(text@) ==> (r matches Err(e) && e.kind == ErrorKind::Parse && e.message@
            == "No WanStatistics structure"@),
        has_marker(text@) && !has_closing_brace(text@) ==> (r matches Err(e) && e.kind
            == ErrorKind::Parse && e.message@ == "No closing brace"@),
        has_marker(text@) && has_closing_brace(text@) ==> match overview_of(
            double_quoted(statistics_object(text@)),
        ) {
            Some(o) => r == Ok::<Overview, TrafficError>(o),
            None => r matches Err(e) && e.kind == ErrorKind::Parse,
        },
        match page_overview(text@) {
            Some(o) => r == Ok::<Overview, TrafficError>(o),
            None => r matches Err(e) && e.kind == ErrorKind::Parse,
        },
{
    let s = chars_of(text);
    let m = chars_of("WanStatistics = {");
    proof {
        reveal_strlit("WanStatistics = {");
    }
    assert(m@ =~= marker());
    let i = match find_first(&s, &m) {
        Some(i) => i,
        None => {
            assert(!has_marker(text@));
            return Err(TrafficError::with_kind(ErrorKind::Parse, "No WanStatistics structure"));
        },
    };
    proof {
        lemma_first_occurrence_unique(s@, m@, i as int, choose|j: int| is_first_occurrence(s@, marker(), j));
    }
    let n = s.len();
    assert(i + m@.len() <= n);
    let start: usize = i + (m.len() - 1);
    assert(start == object_start(text@));
    let k = match find_char_from(&s, '}', start) {
        Some(k) => k,
        None => {
            return Err(TrafficError::with_kind(ErrorKind::Parse, "No closing brace"));
        },
    };
    proof {
        lemma_first_from_unique(s@, '}', start as int, k as int, choose|k2: int| is_first_from(s@, '}', object_start(s@), k2));
    }
    let ghost object = s@.subrange(start as int, k + 1);
    assert(object == statistics_object(text@));
    let mut json: Vec<char> = Vec::new();
    let mut j: usize = start;
    while j <= k
        invariant
            start <= j <= k + 1,
            k < s@.len(),
            s@.len() <= usize::MAX,
            object == s@.subrange(start as int, k + 1),
            json@ == double_quoted(s@.subrange(start as int, j as int)),
        decreases k + 1 - j,
    {
        let c = s[j];
        json.push(if c == '\'' { '"' } else { c });
        j = j + 1;
        assert(json@ =~= double_quoted(s@.subrange(start as int, j as int)));
    }
    let json = string_of(&json);
    overview_from_json(json.as_str())
}

} // verus!
