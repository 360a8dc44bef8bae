//! The decisions of the global middleware layers: request filter, bearer
//! token check and rate limiter, and which of them a settings record turns on.
use vstd::prelude::*;
use crate::json::views;
use crate::paths::{any_route_match, norm, normalize_path, route_requires_auth};
use crate::rate_limit::{admits, step, Limiter};
use crate::settings::{effective_limit, extra_list, merged, FeaturesSettings, SettingsPatch};
use crate::text::{
    ascii_lower, chars_of, contains, lower_of, seq_contains, starts_with, str_starts_with,
    string_of, to_ascii_lowercase, trim, trim_seq,
};
use crate::waf;

verus! {

pub const FORBIDDEN: u16 = 403;
pub const UNAUTHORIZED: u16 = 401;
pub const TOO_MANY_REQUESTS: u16 = 429;

/// An `Authorization` value begins with `bearer `, ignoring ASCII case.
pub open spec fn bearer_spec(auth: Option<&str>) -> bool {
    match auth {
        Some(s) => starts_with(ascii_lower(s@), "bearer "@),
        None => false,
    }
}

/// Whether an `Authorization` value carries a bearer token.
pub fn has_bearer(auth: Option<&str>) -> (r: bool)
    ensures
        r == bearer_spec(auth),
{
    match auth {
        Some(s) => {
            let l = to_ascii_lowercase(s);
            str_starts_with(l.as_str(), "bearer ")
        },
        None => false,
    }
}

/// The `User-Agent` text the filter inspects: empty when absent.
pub open spec fn agent_text(ua: Option<&str>) -> Seq<char> {
    match ua {
        Some(s) => s@,
        None => Seq::empty(),
    }
}

/// Pattern `p` occurs, ignoring ASCII case, in the URI or in a non-empty
/// `User-Agent`.
pub open spec fn pattern_hit(uri: Seq<char>, ua: Seq<char>, p: Seq<char>) -> bool {
    let q = ascii_lower(p);
    contains(ascii_lower(uri), q) || (ua.len() > 0 && contains(ascii_lower(ua), q))
}

pub open spec fn any_pattern_hit(uri: Seq<char>, ua: Seq<char>, patterns: Seq<Seq<char>>) -> bool {
    exists|i: int| 0 <= i < patterns.len() && pattern_hit(uri, ua, #[trigger] patterns[i])
}

/// Whether a configured pattern occurs in the URI or the `User-Agent`.
pub fn waf_is_malicious(uri: &str, ua: Option<&str>, patterns: &[String]) -> (r: bool)
    ensures
        r == any_pattern_hit(uri@, agent_text(ua), patterns@.map_values(|p: String| p@)),
{
    let ua_text: &str = match ua {
        Some(s) => s,
        None => "",
    };
    proof {
        reveal_strlit("");
    }
    let ual = chars_of(to_ascii_lowercase(ua_text).as_str());
    let uril = chars_of(to_ascii_lowercase(uri).as_str());
    let ghost pv = patterns@.map_values(|p: String| p@);
    let mut i: usize = 0;
    while i < patterns.len()
        invariant
            i <= patterns@.len(),
            pv == patterns@.map_values(|p: String| p@),
            ual@ == ascii_lower(agent_text(ua)),
            uril@ == ascii_lower(uri@),
            forall|k: int| 0 <= k < i ==> !pattern_hit(uri@, agent_text(ua), #[trigger] pv[k]),
        decreases patterns@.len() - i,
    {
        let q = chars_of(to_ascii_lowercase(patterns[i].as_str()).as_str());
        assert(pv[i as int] == patterns@[i as int]@);
        if seq_contains(&uril, &q) || (ual.len() > 0 && seq_contains(&ual, &q)) {
            return true;
        }
        i += 1;
    }
    false
}

/// The verdict of the request filter: `403` when the built-in rules or a
/// configured pattern flag the request.
pub open spec fn waf_verdict_spec(s: FeaturesSettings, uri: &str, ua: Option<&str>) -> Option<u16> {
    if waf::flagged(lower_of(uri@), ua) || any_pattern_hit(
        uri@,
        agent_text(ua),
        extra_list(s.feature_extras@, "waf"@, "patterns"@),
    ) {
        Some(FORBIDDEN)
    } else {
        None
    }
}

pub fn waf_verdict(s: &FeaturesSettings, uri: &str, ua: Option<&str>) -> (r: Option<u16>)
    ensures
        r == waf_verdict_spec(*s, uri, ua),
        ua is Some && ua->0.len() > waf::MAX_USER_AGENT_BYTES ==> r == Some(FORBIDDEN),
        crate::text::all_ascii(uri@) && contains(ascii_lower(uri@), "<script"@) ==> r == Some(
            FORBIDDEN,
        ),
{
    let patterns = s.waf_patterns();
    assert(patterns@.map_values(|p: String| p@) =~= views(patterns@));
    if waf::is_malicious(uri, ua) || waf_is_malicious(uri, ua, patterns.as_slice()) {
        Some(FORBIDDEN)
    } else {
        None
    }
}

/// The verdict of the bearer-token check: `401` when the path is protected
/// and the request carries no bearer token.
pub open spec fn oauth2_verdict_spec(s: FeaturesSettings, path: Seq<char>, auth: Option<&str>) -> Option<u16> {
    let protected = extra_list(s.feature_extras@, "oauth2"@, "protected_routes"@);
    if (exists|i: int| 0 <= i < protected.len() && crate::paths::route_match(#[trigger] protected[i], path))
        && !bearer_spec(auth) {
        Some(UNAUTHORIZED)
    } else {
        None
    }
}

pub fn oauth2_verdict(s: &FeaturesSettings, path: &str, auth: Option<&str>) -> (r: Option<u16>)
    ensures
        r == oauth2_verdict_spec(*s, path@, auth),
        bearer_spec(auth) ==> r is None,
{
    let protected = s.protected_routes();
    let needs = route_requires_auth(path, protected.as_slice());
    proof {
        let pv = extra_list(s.feature_extras@, "oauth2"@, "protected_routes"@);
        assert(views(protected@) == pv);
        if needs {
            let i = choose|i: int| 0 <= i < protected@.len() && crate::paths::route_match((#[trigger] protected@[i])@, path@);
            assert(pv[i] == protected@[i]@);
        }
        if exists|i: int| 0 <= i < pv.len() && crate::paths::route_match(#[trigger] pv[i], path@) {
            let i = choose|i: int| 0 <= i < pv.len() && crate::paths::route_match(#[trigger] pv[i], path@);
            assert(pv[i] == protected@[i]@);
            assert(any_route_match(protected@, path@));
        }
    }
    if needs && !has_bearer(auth) {
        Some(UNAUTHORIZED)
    } else {
        None
    }
}

/// The client a request is counted for: the first `X-Forwarded-For` entry,
/// trimmed, or `local` without that header.
pub open spec fn client_spec(forwarded_for: Option<&str>) -> Seq<char> {
    match forwarded_for {
        Some(v) => trim_seq(first_field(v@)),
        None => "local"@,
    }
}

/// The text before the first comma.
pub open spec fn first_field(s: Seq<char>) -> Seq<char>
    decreases s.len(),
{
    if s.len() == 0 {
        s
    } else if s[0] == ',' {
        Seq::empty()
    } else {
        seq![s[0]] + first_field(s.drop_first())
    }
}

pub fn client_id(forwarded_for: Option<&str>) -> (r: String)
    ensures
        r@ == client_spec(forwarded_for),
{
    match forwarded_for {
        Some(v) => {
            let cs = chars_of(v);
            let mut i: usize = 0;
            while i < cs.len() && cs[i] != ','
                invariant
                    i <= cs@.len(),
                    forall|k: int| 0 <= k < i ==> cs@[k] != ',',
                decreases cs@.len() - i,
            {
                i += 1;
            }
            let head = crate::paths::take_chars(&cs, i);
            proof {
                lemma_first_field(cs@, i as int);
            }
            let hs = string_of(&head);
            let t = trim(hs.as_str());
            string_of(&chars_of(t))
        },
        None => string_of(&chars_of("local")),
    }
}

proof fn lemma_first_field(s: Seq<char>, i: int)
    requires
        0 <= i <= s.len(),
        forall|k: int| 0 <= k < i ==> s[k] != ',',
        i == s.len() || s[i] == ',',
    ensures
        first_field(s) == s.take(i),
    decreases s.len(),
{
    if s.len() > 0 && i > 0 {
        lemma_first_field(s.drop_first(), i - 1);
        assert(seq![s[0]] + s.drop_first().take(i - 1) =~= s.take(i));
    } else if s.len() > 0 {
        assert(s.take(0) =~= Seq::<char>::empty());
    }
}

/// Counts a request of `ip` on `path`, keyed by the normalized path, and
/// says whether it is within `limit` in the key's current window.
pub fn rate_limit_check_allow(limiter: &mut Limiter, ip: &str, path: &str, limit: usize) -> (allowed: bool)
    requires
        old(limiter).wf(),
    ensures
        final(limiter).wf(),
        exists|now: u64|
            {
                &&& #[trigger] final(limiter).counters.get(ip@, norm(path@)) == Some(
                    step(old(limiter).counters.get(ip@, norm(path@)), now),
                )
                &&& allowed == admits(
                    step(old(limiter).counters.get(ip@, norm(path@)), now).0,
                    limit as u64,
                )
            },
        forall|c: Seq<char>, p: Seq<char>|
            !(c == ip@ && p == norm(path@)) ==> #[trigger] final(limiter).counters.get(c, p)
                == old(limiter).counters.get(c, p),
{
    let key = normalize_path(path);
    limiter.hit_now(ip, key.as_str(), limit as u64)
}

/// The verdict of the rate limiter for one request: `429` once the key's
/// counter passes the path's ceiling within the current window.
pub fn rate_limit_verdict(
    limiter: &mut Limiter,
    s: &FeaturesSettings,
    forwarded_for: Option<&str>,
    path: &str,
) -> (r: Option<u16>)
    requires
        old(limiter).wf(),
    ensures
        final(limiter).wf(),
        exists|now: u64|
            {
                &&& final(limiter).counters.get(client_spec(forwarded_for), norm(path@)) == Some(
                    #[trigger] step(old(limiter).counters.get(client_spec(forwarded_for), norm(path@)), now),
                )
                &&& r == if admits(
                    step(old(limiter).counters.get(client_spec(forwarded_for), norm(path@)), now).0,
                    effective_limit(*s, norm(path@)) as u64,
                ) {
                    None
                } else {
                    Some(TOO_MANY_REQUESTS)
                }
            },
{
    let client = client_id(forwarded_for);
    let key = normalize_path(path);
    let limit = s.route_limit(key.as_str());
    if limiter.hit_now(client.as_str(), key.as_str(), limit as u64) {
        None
    } else {
        Some(TOO_MANY_REQUESTS)
    }
}

/// Which global layers wrap the routing tree.
pub struct Layers {
    pub waf: bool,
    pub oauth2: bool,
    pub rate_limit: bool,
}

/// A layer is on when its flag is set and its feature is not disabled.
pub fn global_layers(s: &FeaturesSettings) -> (r: Layers)
    ensures
        r.waf == layer_on(*s, s.waf_enabled, "waf"@),
        r.oauth2 == layer_on(*s, s.oauth2_enabled, "oauth2"@),
        r.rate_limit == layer_on(*s, s.rate_limit_enabled, "rate_limit"@),
{
    Layers {
        waf: s.waf_enabled && !s.is_feature_disabled("waf"),
        oauth2: s.oauth2_enabled && !s.is_feature_disabled("oauth2"),
        rate_limit: s.rate_limit_enabled && !s.is_feature_disabled("rate_limit"),
    }
}

/// Whether the layer of feature `name` wraps the tree under `s`, given its
/// flag, as `global_layers` decides.
pub open spec fn layer_on(s: FeaturesSettings, flag: bool, name: Seq<char>) -> bool {
    flag && !s.disabled_feature(name)
}

/// A patch that lists a feature among the disabled ones turns that
/// feature's layer off, whatever its flag says.
pub proof fn lemma_disabling_feature_drops_layer(s: FeaturesSettings, p: SettingsPatch, name: Seq<char>, flag: bool)
    requires
        p.disabled_features matches Some(v) && exists|i: int| 0 <= i < v@.len() && (#[trigger] v@[i])@ == name,
    ensures
        !layer_on(merged(s, p), flag, name),
{
    let v = p.disabled_features->0;
    let i = choose|i: int| 0 <= i < v@.len() && (#[trigger] v@[i])@ == name;
    assert(merged(s, p).disabled_features@[i]@ == name);
}

} // verus!
