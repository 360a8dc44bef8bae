//! The per-route cross-origin policy derived from the `cors` feature
//! settings, and the feature's settings manifest.
use vstd::prelude::*;
use crate::json::{member, member_of, string_items, views, Json, JsonNumber};
use crate::paths::{route_match, route_requires_auth};
use crate::settings::FeaturesSettings;
use crate::text::str_eq;

verus! {

/// An allow-list that may be left unset, opened to everything, or listed.
pub enum AllowList {
    Unset,
    Any,
    List(Vec<String>),
}

/// What the cross-origin layer of one route allows.
pub struct CorsPolicy {
    pub origins: AllowList,
    pub methods: Option<Vec<String>>,
    pub headers: AllowList,
    pub expose_headers: Option<Vec<String>>,
    pub allow_credentials: bool,
    pub max_age: Option<u64>,
}

/// A header value byte is visible ASCII, a tab, or part of a non-ASCII
/// character.
pub open spec fn header_value_char(c: char) -> bool {
    c == '\t' || (' ' <= c && c != '\u{7f}')
}

pub open spec fn header_value_valid(s: Seq<char>) -> bool {
    forall|i: int| 0 <= i < s.len() ==> header_value_char(#[trigger] s[i])
}

/// An HTTP token character.
pub open spec fn token_char(c: char) -> bool {
    ||| ('0' <= c && c <= '9')
    ||| ('a' <= c && c <= 'z')
    ||| ('A' <= c && c <= 'Z')
    ||| c == '!' || c == '#' || c == '$' || c == '%' || c == '&' || c == '\''
    ||| c == '*' || c == '+' || c == '-' || c == '.' || c == '^' || c == '_'
    ||| c == '`' || c == '|' || c == '~'
}

pub open spec fn method_valid(s: Seq<char>) -> bool {
    s.len() > 0 && forall|i: int| 0 <= i < s.len() ==> token_char(#[trigger] s[i])
}

/// What `http::HeaderName` accepts: one to 65535 token characters, of
/// either case.
pub open spec fn header_name_valid(s: Seq<char>) -> bool {
    0 < s.len() <= 65535 && forall|i: int| 0 <= i < s.len() ==> token_char(#[trigger] s[i])
}

/// Relies on `http::HeaderValue::from_str`: every byte is at least 32 and
/// not 127, or a tab.
#[verifier::external_body]
fn header_value_ok(s: &str) -> (r: bool)
    ensures
        r == header_value_valid(s@),
{
    s.parse::<http::HeaderValue>().is_ok()
}

/// Relies on `http::Method::from_str`: a non-empty token.
#[verifier::external_body]
fn method_ok(s: &str) -> (r: bool)
    ensures
        r == method_valid(s@),
{
    s.parse::<http::Method>().is_ok()
}

/// Relies on `http::HeaderName::from_str`: a non-empty token of at most
/// 65535 bytes.
#[verifier::external_body]
fn header_name_ok(s: &str) -> (r: bool)
    ensures
        r == header_name_valid(s@),
{
    s.parse::<http::HeaderName>().is_ok()
}

/// Which validity test a list goes through.
pub enum Check {
    Value,
    MethodName,
    HeaderName,
}

pub open spec fn passes(c: Check, s: Seq<char>) -> bool {
    match c {
        Check::Value => header_value_valid(s),
        Check::MethodName => method_valid(s),
        Check::HeaderName => header_name_valid(s),
    }
}

/// The elements of `s` that pass `c`, in order.
pub open spec fn keep(s: Seq<Seq<char>>, c: Check) -> Seq<Seq<char>>
    decreases s.len(),
{
    if s.len() == 0 {
        s
    } else if passes(c, s.last()) {
        keep(s.drop_last(), c).push(s.last())
    } else {
        keep(s.drop_last(), c)
    }
}

fn passes_exec(c: &Check, s: &str) -> (r: bool)
    ensures
        r == passes(*c, s@),
{
    match c {
        Check::Value => header_value_ok(s),
        Check::MethodName => method_ok(s),
        Check::HeaderName => header_name_ok(s),
    }
}

fn keep_valid(items: &Vec<String>, c: Check) -> (r: Vec<String>)
    ensures
        views(r@) == keep(views(items@), c),
{
    let mut out: Vec<String> = Vec::new();
    let mut i: usize = 0;
    while i < items.len()
        invariant
            i <= items@.len(),
            views(out@) == keep(views(items@.take(i as int)), c),
        decreases items@.len() - i,
    {
        assert(views(items@.take(i + 1)).drop_last() =~= views(items@.take(i as int)));
        assert(views(items@.take(i + 1)).last() == items@[i as int]@);
        if passes_exec(&c, items[i].as_str()) {
            out.push(items[i].clone());
            assert(views(out@) =~= views(out@.drop_last()).push(items@[i as int]@));
        }
        i += 1;
    }
    assert(items@.take(items@.len() as int) =~= items@);
    out
}

pub open spec fn has_star(s: Seq<Seq<char>>) -> bool {
    exists|i: int| 0 <= i < s.len() && s[i] == "*"@
}

fn any_star(items: &Vec<String>) -> (r: bool)
    ensures
        r == has_star(views(items@)),
{
    let mut i: usize = 0;
    while i < items.len()
        invariant
            i <= items@.len(),
            forall|k: int| 0 <= k < i ==> views(items@)[k] != "*"@,
        decreases items@.len() - i,
    {
        assert(views(items@)[i as int] == items@[i as int]@);
        if str_eq(items[i].as_str(), "*") {
            return true;
        }
        i += 1;
    }
    false
}

/// A string list setting: `Any` when it holds `*` (and `*` opens it),
/// else the valid entries, or `Unset` when none is valid.
pub open spec fn allow_list_spec(v: Option<Json>, star: bool, c: Check) -> (bool, bool, Seq<Seq<char>>) {
    match v {
        Some(Json::Array(items)) => if star && has_star(string_items(items@)) {
            (true, true, Seq::empty())
        } else {
            let kept = keep(string_items(items@), c);
            (kept.len() > 0, false, kept)
        },
        _ => (false, false, Seq::empty()),
    }
}

pub open spec fn allow_list_matches(l: AllowList, spec: (bool, bool, Seq<Seq<char>>)) -> bool {
    match l {
        AllowList::Unset => !spec.0,
        AllowList::Any => spec.0 && spec.1,
        AllowList::List(v) => spec.0 && !spec.1 && views(v@) == spec.2,
    }
}

fn allow_list(v: Option<&Json>, star: bool, c: Check) -> (r: AllowList)
    ensures
        match v {
            Some(j) => allow_list_matches(r, allow_list_spec(Some(*j), star, c)),
            None => allow_list_matches(r, allow_list_spec(None, star, c)),
        },
{
    match v {
        Some(j) => match j {
            Json::Array(_) => {
                let items = j.strings();
                if star && any_star(&items) {
                    AllowList::Any
                } else {
                    let kept = keep_valid(&items, c);
                    if kept.len() > 0 {
                        AllowList::List(kept)
                    } else {
                        AllowList::Unset
                    }
                }
            },
            _ => AllowList::Unset,
        },
        None => AllowList::Unset,
    }
}

/// A decimal number text whose digits before any exponent are not all zero.
pub open spec fn text_nonzero(t: Seq<char>) -> bool {
    exists|i: int|
        0 <= i < t.len() && '1' <= #[trigger] t[i] && t[i] <= '9' && forall|k: int|
            0 <= k < i ==> t[k] != 'e' && t[k] != 'E'
}

pub open spec fn nonzero(n: JsonNumber) -> bool {
    match n {
        JsonNumber::Unsigned(u) => u != 0,
        JsonNumber::Signed(i) => i != 0,
        JsonNumber::Other(t) => text_nonzero(t@),
    }
}

fn is_nonzero(n: &JsonNumber) -> (r: bool)
    ensures
        r == nonzero(*n),
{
    match n {
        JsonNumber::Unsigned(u) => *u != 0,
        JsonNumber::Signed(i) => *i != 0,
        JsonNumber::Other(t) => {
            let cs = crate::text::chars_of(t.as_str());
            let mut i: usize = 0;
            while i < cs.len()
                invariant
                    i <= cs@.len(),
                    cs@ == t@,
                    *n == JsonNumber::Other(*t),
                    forall|k: int| 0 <= k < i ==> cs@[k] != 'e' && cs@[k] != 'E' && !('1' <= cs@[k] && cs@[k] <= '9'),
                decreases cs@.len() - i,
            {
                let c = cs[i];
                if c == 'e' || c == 'E' {
                    proof {
                        assert forall|x: int| 0 <= x < t@.len() && '1' <= #[trigger] t@[x] && t@[x] <= '9' implies !(forall|k: int| 0 <= k < x ==> t@[k] != 'e' && t@[k] != 'E') by {
                            assert(x > i);
                            assert(t@[i as int] == c);
                        }
                    }
                    return false;
                }
                if '1' <= c && c <= '9' {
                    proof {
                        assert(t@[i as int] == c);
                        assert forall|k: int| 0 <= k < i implies t@[k] != 'e' && t@[k] != 'E' by {
                            assert(t@[k] == cs@[k]);
                        }
                        assert(text_nonzero(t@));
                    }
                    return true;
                }
                i += 1;
            }
            proof {
                assert forall|x: int| 0 <= x < t@.len() implies !('1' <= #[trigger] t@[x] && t@[x] <= '9') by {
                    assert(t@[x] == cs@[x]);
                }
            }
            false
        },
    }
}

/// `allow_credentials` as a boolean, or as a number where any nonzero
/// value means on.
pub open spec fn credentials_spec(v: Option<Json>) -> bool {
    match v {
        Some(Json::Bool(b)) => b,
        Some(Json::Number(n)) => nonzero(n),
        _ => false,
    }
}

/// The route is listed in `enabled_routes`, or the setting is absent.
pub open spec fn route_enabled(cors: Seq<(String, Json)>, path: Seq<char>) -> bool {
    match member(cors, "enabled_routes"@) {
        Some(Json::Array(items)) => {
            let l = string_items(items@);
            exists|i: int| 0 <= i < l.len() && route_match(#[trigger] l[i], path)
        },
        _ => true,
    }
}

/// The cross-origin policy of `path`: none without a `cors` settings object
/// or when `enabled_routes` leaves the path out.
pub open spec fn policy_matches(s: FeaturesSettings, path: Seq<char>, r: Option<CorsPolicy>) -> bool {
    match member(s.feature_extras@, "cors"@) {
        Some(Json::Object(cors)) => if route_enabled(cors@, path) {
            r is Some && {
                let p = r->0;
                &&& allow_list_matches(p.origins, allow_list_spec(member(cors@, "origins"@), true, Check::Value))
                &&& allow_list_matches(p.headers, allow_list_spec(member(cors@, "headers"@), true, Check::HeaderName))
                &&& match allow_list_spec(member(cors@, "methods"@), false, Check::MethodName) {
                    (true, _, l) => p.methods is Some && views(p.methods->0@) == l,
                    _ => p.methods is None,
                }
                &&& match allow_list_spec(member(cors@, "expose_headers"@), false, Check::HeaderName) {
                    (true, _, l) => p.expose_headers is Some && views(p.expose_headers->0@) == l,
                    _ => p.expose_headers is None,
                }
                &&& p.allow_credentials == credentials_spec(member(cors@, "allow_credentials"@))
                &&& p.max_age == match member(cors@, "max_age"@) {
                    Some(j) => j.as_u64_spec(),
                    None => None,
                }
            }
        } else {
            r is None
        },
        _ => r is None,
    }
}

fn plain_list(v: Option<&Json>, c: Check) -> (r: Option<Vec<String>>)
    ensures
        match v {
            Some(j) => match allow_list_spec(Some(*j), false, c) {
                (true, _, l) => r is Some && views(r->0@) == l,
                _ => r is None,
            },
            None => r is None,
        },
{
    match allow_list(v, false, c) {
        AllowList::List(l) => Some(l),
        _ => None,
    }
}

/// The cross-origin policy of `path` under the settings' `cors` object.
pub fn route_cors_layer(path: &str, s: &FeaturesSettings) -> (r: Option<CorsPolicy>)
    ensures
        policy_matches(*s, path@, r),
{
    let cors = match member_of(&s.feature_extras, "cors") {
        Some(Json::Object(o)) => o,
        _ => return None,
    };
    match member_of(cors, "enabled_routes") {
        Some(Json::Array(items)) => {
            let l = match member_of(cors, "enabled_routes") {
                Some(v) => v.strings(),
                None => Vec::new(),
            };
            let hit = route_requires_auth(path, l.as_slice());
            proof {
                let sv = string_items(items@);
                assert(views(l@) == sv);
                if hit {
                    let i = choose|i: int| 0 <= i < l@.len() && route_match((#[trigger] l@[i])@, path@);
                    assert(sv[i] == l@[i]@);
                }
                if exists|i: int| 0 <= i < sv.len() && route_match(#[trigger] sv[i], path@) {
                    let i = choose|i: int| 0 <= i < sv.len() && route_match(#[trigger] sv[i], path@);
                    assert(sv[i] == l@[i]@);
                }
            }
            if !hit {
                return None;
            }
        },
        _ => {},
    }
    let origins = allow_list(member_of(cors, "origins"), true, Check::Value);
    let headers = allow_list(member_of(cors, "headers"), true, Check::HeaderName);
    let methods = plain_list(member_of(cors, "methods"), Check::MethodName);
    let expose_headers = plain_list(member_of(cors, "expose_headers"), Check::HeaderName);
    let allow_credentials = match member_of(cors, "allow_credentials") {
        Some(Json::Bool(b)) => *b,
        Some(Json::Number(n)) => is_nonzero(n),
        _ => false,
    };
    let max_age = match member_of(cors, "max_age") {
        Some(j) => j.as_u64(),
        None => None,
    };
    Some(CorsPolicy { origins, methods, headers, expose_headers, allow_credentials, max_age })
}

/// Whether the per-route cross-origin layers apply: the flag is set, the
/// feature's library is present and the feature is not disabled.
pub fn cors_active(s: &FeaturesSettings, library_present: bool) -> (r: bool)
    ensures
        r == (s.cors_enabled && library_present && !s.disabled_feature("cors"@)),
{
    s.cors_enabled && library_present && !s.is_feature_disabled("cors")
}

/// The settings manifest of the `cors` feature.
pub const CORS_MANIFEST: &'static str = "{\"name\":\"cors\",\"settings\":[{\"key\":\"enabled_routes\",\"type\":\"route_list\",\"label\":\"CORS routes\",\"default\":[]},{\"key\":\"origins\",\"type\":\"string_list\",\"label\":\"Default Origins\",\"default\":[\"*\"]},{\"key\":\"methods\",\"type\":\"string_list\",\"label\":\"Default Methods\",\"default\":[\"GET\",\"POST\",\"PUT\",\"DELETE\"]},{\"key\":\"headers\",\"type\":\"string_list\",\"label\":\"Default Headers\",\"default\":[\"*\"]},{\"key\":\"expose_headers\",\"type\":\"string_list\",\"label\":\"Default Expose Headers\",\"default\":[]},{\"key\":\"allow_credentials\",\"type\":\"number\",\"label\":\"Allow Credentials (0/1)\",\"default\":0},{\"key\":\"max_age\",\"type\":\"number\",\"label\":\"Max Age (seconds)\",\"default\":0}]}";

/// The settings manifest of the `cors` feature, as JSON text.
pub fn manifest_json() -> (r: String)
    ensures
        r@ == CORS_MANIFEST@,
{
    String::from_str(CORS_MANIFEST)
}

} // verus!
