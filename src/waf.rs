//! The request filter's built-in rules: well-known attack fragments in the
//! URI, and oversized `User-Agent` headers.
use vstd::prelude::*;
use crate::text::{all_ascii, ascii_lower, contains, lower_of, str_contains, to_lowercase};

verus! {

/// Longest `User-Agent` header, in bytes, that passes.
pub const MAX_USER_AGENT_BYTES: usize = 1024;

/// Fragments that mark a URI as hostile, in lower case.
pub open spec fn suspicious() -> Seq<Seq<char>> {
    seq![
        "<script"@,
        "%3cscript"@,
        "javascript:"@,
        "onerror="@,
        "onload="@,
        "<img"@,
        "<svg"@,
        "../"@,
        "union select"@,
        "select%20"@,
        "or 1=1"@,
        "drop table"@,
        "insert%20"@,
        "update%20"@,
        "delete%20"@,
    ]
}

pub open spec fn oversized(user_agent: Option<&str>) -> bool {
    match user_agent {
        Some(ua) => ua.len() > MAX_USER_AGENT_BYTES,
        None => false,
    }
}

/// The verdict on a request whose URI, lowered, is `uri_lower`.
pub open spec fn flagged(uri_lower: Seq<char>, user_agent: Option<&str>) -> bool {
    (exists|i: int| 0 <= i < suspicious().len() && contains(uri_lower, #[trigger] suspicious()[i]))
        || oversized(user_agent)
}

/// Whether a request is hostile, given its URI already lowered.
pub fn is_malicious_lowered(uri_lower: &str, user_agent: Option<&str>) -> (r: bool)
    ensures
        r == flagged(uri_lower@, user_agent),
{
    let pats: Vec<&str> = vec![
        "<script",
        "%3cscript",
        "javascript:",
        "onerror=",
        "onload=",
        "<img",
        "<svg",
        "../",
        "union select",
        "select%20",
        "or 1=1",
        "drop table",
        "insert%20",
        "update%20",
        "delete%20",
    ];
    assert(pats@.map_values(|p: &str| p@) =~= suspicious());
    let mut i: usize = 0;
    while i < pats.len()
        invariant
            i <= pats@.len(),
            pats@.map_values(|p: &str| p@) == suspicious(),
            forall|k: int| 0 <= k < i ==> !contains(uri_lower@, #[trigger] suspicious()[k]),
        decreases pats@.len() - i,
    {
        assert(pats@.map_values(|p: &str| p@)[i as int] == pats@[i as int]@);
        if str_contains(uri_lower, pats[i]) {
            return true;
        }
        i += 1;
    }
    match user_agent {
        Some(ua) => ua.len() > MAX_USER_AGENT_BYTES,
        None => false,
    }
}

/// Whether a request is hostile: its URI, lowered, holds a suspicious
/// fragment, or its `User-Agent` is longer than the limit.
pub fn is_malicious(uri: &str, user_agent: Option<&str>) -> (r: bool)
    ensures
        r == flagged(lower_of(uri@), user_agent),
        all_ascii(uri@) && contains(ascii_lower(uri@), "<script"@) ==> r,
        oversized(user_agent) ==> r,
{
    let lowered = to_lowercase(uri);
    let r = is_malicious_lowered(lowered.as_str(), user_agent);
    proof {
        if all_ascii(uri@) && contains(ascii_lower(uri@), "<script"@) {
            assert(contains(lowered@, suspicious()[0]));
        }
    }
    r
}

} // verus!
