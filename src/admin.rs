//! Access to the administrative endpoints: only from a loopback address,
//! and only with a `localhost` host name.
use vstd::prelude::*;
use crate::json::views;
use crate::order::{insert_sorted, less, lemma_lt_total, lemma_lt_transitive, lex_lt, sorted};
use crate::text::{ascii_lower, before_sep, chars_of, str_eq, string_of, to_ascii_lowercase};

verus! {

/// A client address: IPv4 as its 32-bit value, IPv6 as its 128-bit value.
#[derive(Clone, Copy, PartialEq, Eq, Structural)]
pub enum ClientIp {
    V4(u32),
    V6(u128),
}

/// `127.0.0.1`.
pub const IPV4_LOOPBACK: u32 = 0x7f00_0001;

/// `::1`.
pub const IPV6_LOOPBACK: u128 = 1;

pub open spec fn loopback(ip: ClientIp) -> bool {
    match ip {
        ClientIp::V4(a) => a == IPV4_LOOPBACK,
        ClientIp::V6(a) => a == IPV6_LOOPBACK,
    }
}

/// The endpoints behind the guard: the console page, the settings
/// endpoint and the reload trigger.
pub open spec fn guarded(path: Seq<char>) -> bool {
    path == "/admin"@ || path == "/admin/"@ || path == "/admin/settings"@ || path == "/admin/reload"@
}

/// The name part of a `Host` value is `localhost`, ignoring ASCII case.
pub open spec fn localhost_host(host: Option<&str>) -> bool {
    match host {
        Some(h) => ascii_lower(before_sep(h@, ':')) == "localhost"@,
        None => false,
    }
}

fn host_is_localhost(host: Option<&str>) -> (r: bool)
    ensures
        r == localhost_host(host),
{
    match host {
        Some(h) => {
            let hv = chars_of(h);
            let name = match crate::text::split_once(&hv, ':') {
                Some((a, _)) => a,
                None => hv,
            };
            proof {
                if !crate::text::has_char(h@, ':') {
                    lemma_no_sep(h@, ':');
                }
            }
            let ns = string_of(&name);
            let lowered = to_ascii_lowercase(ns.as_str());
            str_eq(lowered.as_str(), "localhost")
        },
        None => false,
    }
}

proof fn lemma_no_sep(s: Seq<char>, sep: char)
    requires
        !crate::text::has_char(s, sep),
    ensures
        before_sep(s, sep) == s,
    decreases s.len(),
{
    if s.len() > 0 {
        assert(!crate::text::has_char(s.drop_first(), sep)) by {
            if crate::text::has_char(s.drop_first(), sep) {
                let i = choose|i: int| 0 <= i < s.drop_first().len() && s.drop_first()[i] == sep;
                assert(s[i + 1] == sep);
            }
        }
        lemma_no_sep(s.drop_first(), sep);
        assert(seq![s[0]] + s.drop_first() =~= s);
    }
}

/// `403` on a guarded path, unless the client address is loopback and the
/// host name is `localhost`.
pub open spec fn admin_verdict(path: Seq<char>, host: Option<&str>, ip: Option<ClientIp>) -> Option<u16> {
    if guarded(path) && !(localhost_host(host) && ip is Some && loopback(ip->0)) {
        Some(403)
    } else {
        None
    }
}

pub fn admin_access_guard(path: &str, host: Option<&str>, ip: Option<ClientIp>) -> (r: Option<u16>)
    ensures
        r == admin_verdict(path@, host, ip),
        path@ == "/admin/settings"@ && (!localhost_host(host) || ip is None || !loopback(ip->0))
            ==> r == Some(403u16),
{
    let must = str_eq(path, "/admin") || str_eq(path, "/admin/") || str_eq(path, "/admin/settings")
        || str_eq(path, "/admin/reload");
    if !must {
        return None;
    }
    let ip_ok = match ip {
        Some(ClientIp::V4(a)) => a == IPV4_LOOPBACK,
        Some(ClientIp::V6(a)) => a == IPV6_LOOPBACK,
        None => false,
    };
    if host_is_localhost(host) && ip_ok {
        None
    } else {
        Some(403)
    }
}

/// `s` without its leading `/` characters.
pub open spec fn strip_leading_slashes(s: Seq<char>) -> Seq<char>
    decreases s.len(),
{
    if s.len() > 0 && s[0] == '/' {
        strip_leading_slashes(s.drop_first())
    } else {
        s
    }
}

/// The first segment of a route: its text up to the first `/` after any
/// leading slashes.
pub open spec fn first_segment(route: Seq<char>) -> Seq<char> {
    before_sep(strip_leading_slashes(route), '/')
}

/// The module a served route is listed under: its `x-module`, else its
/// first segment.
pub open spec fn served_module(route: Seq<char>, x_module: Option<String>) -> Seq<char> {
    match x_module {
        Some(m) => m@,
        None => first_segment(route),
    }
}

/// Every listed route with its module: the served routes, then the
/// disabled ones under their first segment.
pub open spec fn listing(served: Seq<(String, Option<String>)>, disabled: Seq<String>) -> Seq<(Seq<char>, Seq<char>)> {
    served.map_values(|e: (String, Option<String>)| (served_module(e.0@, e.1), e.0@)) + disabled.map_values(
        |r: String| (first_segment(r@), r@),
    )
}

fn segment_of(route: &str) -> (r: String)
    ensures
        r@ == first_segment(route@),
{
    let v = chars_of(route);
    let mut i: usize = 0;
    assert(v@.skip(0) =~= v@);
    while i < v.len() && v[i] == '/'
        invariant
            i <= v@.len(),
            strip_leading_slashes(v@) == strip_leading_slashes(v@.skip(i as int)),
        decreases v@.len() - i,
    {
        assert(v@.skip(i as int).drop_first() =~= v@.skip(i + 1));
        i += 1;
    }
    let rest = crate::text::skip_chars(&v, i);
    assert(strip_leading_slashes(rest@) == rest@);
    match crate::text::split_once(&rest, '/') {
        Some((a, _)) => string_of(&a),
        None => {
            proof {
                lemma_no_sep(rest@, '/');
            }
            string_of(&rest)
        },
    }
}

/// The routes of the admin listing, each with the module it is shown
/// under, served routes first.
pub fn route_listing(served: &Vec<(String, Option<String>)>, disabled: &Vec<String>) -> (r: Vec<(String, String)>)
    ensures
        r@.map_values(|e: (String, String)| (e.0@, e.1@)) == listing(served@, disabled@),
{
    let mut out: Vec<(String, String)> = Vec::new();
    let ghost sv = served@.map_values(|e: (String, Option<String>)| (served_module(e.0@, e.1), e.0@));
    let ghost dv = disabled@.map_values(|r: String| (first_segment(r@), r@));
    let mut i: usize = 0;
    while i < served.len()
        invariant
            i <= served@.len(),
            sv == served@.map_values(|e: (String, Option<String>)| (served_module(e.0@, e.1), e.0@)),
            out@.map_values(|e: (String, String)| (e.0@, e.1@)) == sv.take(i as int),
        decreases served@.len() - i,
    {
        let module = match &served[i].1 {
            Some(m) => m.clone(),
            None => segment_of(served[i].0.as_str()),
        };
        let path = served[i].0.clone();
        let ghost prev = out@.map_values(|e: (String, String)| (e.0@, e.1@));
        let ghost pair = (module@, path@);
        assert(sv[i as int] == pair);
        out.push((module, path));
        assert(out@.map_values(|e: (String, String)| (e.0@, e.1@)) =~= prev.push(pair));
        assert(sv.take(i + 1) =~= sv.take(i as int).push(sv[i as int]));
        i += 1;
    }
    let mut j: usize = 0;
    while j < disabled.len()
        invariant
            j <= disabled@.len(),
            sv.len() == served@.len(),
            dv == disabled@.map_values(|r: String| (first_segment(r@), r@)),
            out@.map_values(|e: (String, String)| (e.0@, e.1@)) == sv + dv.take(j as int),
        decreases disabled@.len() - j,
    {
        let module = segment_of(disabled[j].as_str());
        let path = disabled[j].clone();
        let ghost prev = out@.map_values(|e: (String, String)| (e.0@, e.1@));
        let ghost pair = (module@, path@);
        assert(dv[j as int] == pair);
        out.push((module, path));
        assert(out@.map_values(|e: (String, String)| (e.0@, e.1@)) =~= prev.push(pair));
        assert(dv.take(j + 1) =~= dv.take(j as int).push(dv[j as int]));
        assert(sv + dv.take(j + 1) =~= (sv + dv.take(j as int)).push(pair));
        j += 1;
    }
    assert(dv.take(disabled@.len() as int) =~= dv);
    assert(sv.take(served@.len() as int) =~= sv);
    out
}

/// The routes listed under one module.
pub struct RouteGroup {
    pub module: String,
    pub routes: Vec<String>,
}

pub open spec fn module_names(groups: Seq<RouteGroup>) -> Seq<Seq<char>> {
    groups.map_values(|g: RouteGroup| g.module@)
}

/// Modules in order without repeats, each with a non-empty sorted list.
pub open spec fn groups_wf(groups: Seq<RouteGroup>) -> bool {
    &&& sorted(module_names(groups))
    &&& forall|g: int| 0 <= g < groups.len() ==> sorted(views((#[trigger] groups[g]).routes@))
        && groups[g].routes@.len() > 0
}

/// `route` is listed under `module`.
pub open spec fn grouped(groups: Seq<RouteGroup>, module: Seq<char>, route: Seq<char>) -> bool {
    exists|g: int|
        0 <= g < groups.len() && (#[trigger] groups[g]).module@ == module && views(
            groups[g].routes@,
        ).contains(route)
}

fn add_to_groups(groups: &mut Vec<RouteGroup>, module: String, route: String)
    requires
        groups_wf(old(groups)@),
    ensures
        groups_wf(final(groups)@),
        forall|m: Seq<char>, r: Seq<char>| #[trigger] grouped(final(groups)@, m, r) <==> (grouped(old(groups)@, m, r) || (m == module@ && r == route@)),
{
    let ghost old_g = groups@;
    let ghost ms = module_names(old_g);
    let mut i: usize = 0;
    while i < groups.len() && less(groups[i].module.as_str(), module.as_str())
        invariant
            i <= groups@.len(),
            groups@ == old_g,
            ms == module_names(old_g),
            groups_wf(old_g),
            forall|a: int| 0 <= a < i ==> lex_lt(#[trigger] ms[a], module@),
        decreases groups@.len() - i,
    {
        i += 1;
    }
    if i < groups.len() && str_eq(groups[i].module.as_str(), module.as_str()) {
        let RouteGroup { module: gm, routes: mut rs } = groups.remove(i);
        let ghost old_rs = views(rs@);
        assert(old_g[i as int].routes@ == rs@);
        insert_sorted(&mut rs, route);
        groups.insert(i, RouteGroup { module: gm, routes: rs });
        proof {
            let w = groups@;
            assert(module_names(w) =~= ms);
            assert forall|g: int| 0 <= g < w.len() implies sorted(views((#[trigger] w[g]).routes@)) && w[g].routes@.len() > 0 by {
                if g != i {
                    assert(w[g] == old_g[g]);
                } else {
                    assert(views(w[g].routes@).contains(route@));
                }
            }
            assert forall|m: Seq<char>, r: Seq<char>| #[trigger] grouped(w, m, r) <==> (grouped(old_g, m, r) || (m == module@ && r == route@)) by {
                if grouped(w, m, r) {
                    let g = choose|g: int| 0 <= g < w.len() && (#[trigger] w[g]).module@ == m && views(w[g].routes@).contains(r);
                    if g != i {
                        assert(w[g] == old_g[g]);
                    }
                }
                if grouped(old_g, m, r) {
                    let g = choose|g: int| 0 <= g < old_g.len() && (#[trigger] old_g[g]).module@ == m && views(old_g[g].routes@).contains(r);
                    if g != i {
                        assert(w[g] == old_g[g]);
                    } else {
                        assert(views(old_g[g].routes@) == old_rs);
                        assert(views(w[g].routes@).contains(r));
                    }
                    assert(grouped(w, m, r));
                }
                if m == module@ && r == route@ {
                    assert(w[i as int].module@ == m);
                    assert(views(w[i as int].routes@).contains(r));
                }
            }
        }
        return;
    }
    proof {
        if i < old_g.len() {
            assert(ms[i as int] == old_g[i as int].module@);
            lemma_lt_total(ms[i as int], module@);
        }
    }
    let mut rs: Vec<String> = Vec::new();
    rs.push(route);
    groups.insert(i, RouteGroup { module, routes: rs });
    proof {
        let w = groups@;
        let wm = module_names(w);
        assert(views(w[i as int].routes@) =~= seq![route@]);
        assert(wm =~= ms.subrange(0, i as int).push(module@) + ms.subrange(i as int, ms.len() as int));
        assert forall|a: int, b: int| 0 <= a < b < wm.len() implies lex_lt(#[trigger] wm[a], #[trigger] wm[b]) by {
            if b < i {
                assert(wm[a] == ms[a] && wm[b] == ms[b]);
            } else if b == i {
                assert(wm[a] == ms[a]);
            } else if a == i {
                assert(wm[b] == ms[b - 1]);
                if b - 1 > i {
                    lemma_lt_transitive(module@, ms[i as int], ms[b - 1]);
                }
            } else if a < i {
                assert(wm[a] == ms[a] && wm[b] == ms[b - 1]);
            } else {
                assert(wm[a] == ms[a - 1] && wm[b] == ms[b - 1]);
            }
        }
        assert forall|g: int| 0 <= g < w.len() implies sorted(views((#[trigger] w[g]).routes@)) && w[g].routes@.len() > 0 by {
            if g < i {
                assert(w[g] == old_g[g]);
            } else if g > i {
                assert(w[g] == old_g[g - 1]);
            }
        }
        assert forall|m: Seq<char>, r: Seq<char>| #[trigger] grouped(w, m, r) <==> (grouped(old_g, m, r) || (m == module@ && r == route@)) by {
            if grouped(w, m, r) {
                let g = choose|g: int| 0 <= g < w.len() && (#[trigger] w[g]).module@ == m && views(w[g].routes@).contains(r);
                if g < i {
                    assert(w[g] == old_g[g]);
                } else if g > i {
                    assert(w[g] == old_g[g - 1]);
                } else {
                    assert(views(w[g].routes@)[0] == route@);
                }
            }
            if grouped(old_g, m, r) {
                let g = choose|g: int| 0 <= g < old_g.len() && (#[trigger] old_g[g]).module@ == m && views(old_g[g].routes@).contains(r);
                if g < i {
                    assert(w[g] == old_g[g]);
                } else {
                    assert(w[g + 1] == old_g[g]);
                }
                assert(grouped(w, m, r));
            }
            if m == module@ && r == route@ {
                assert(w[i as int].module@ == m);
                assert(views(w[i as int].routes@)[0] == r);
            }
        }
    }
}

/// The admin route listing grouped by module: modules in code-point order,
/// each with its routes in code-point order and without repeats.
pub fn group_routes(served: &Vec<(String, Option<String>)>, disabled: &Vec<String>) -> (r: Vec<RouteGroup>)
    ensures
        groups_wf(r@),
        forall|m: Seq<char>, x: Seq<char>| #[trigger] grouped(r@, m, x) <==> listing(served@, disabled@).contains((m, x)),
{
    let pairs = route_listing(served, disabled);
    let ghost lv = pairs@.map_values(|e: (String, String)| (e.0@, e.1@));
    let mut groups: Vec<RouteGroup> = Vec::new();
    let mut i: usize = 0;
    while i < pairs.len()
        invariant
            i <= pairs@.len(),
            lv == pairs@.map_values(|e: (String, String)| (e.0@, e.1@)),
            groups_wf(groups@),
            forall|m: Seq<char>, x: Seq<char>| #[trigger] grouped(groups@, m, x) <==> lv.take(i as int).contains((m, x)),
        decreases pairs@.len() - i,
    {
        let m = pairs[i].0.clone();
        let x = pairs[i].1.clone();
        let ghost before = groups@;
        add_to_groups(&mut groups, m, x);
        proof {
            assert(lv[i as int] == (pairs@[i as int].0@, pairs@[i as int].1@));
            assert forall|mm: Seq<char>, xx: Seq<char>| #[trigger] grouped(groups@, mm, xx) <==> lv.take(i + 1).contains((mm, xx)) by {
                assert(lv.take(i + 1) =~= lv.take(i as int).push(lv[i as int]));
                let next = lv.take(i + 1);
                let prev = lv.take(i as int);
                if next.contains((mm, xx)) {
                    let k = choose|k: int| 0 <= k < next.len() && #[trigger] next[k] == (mm, xx);
                    if k < i {
                        assert(lv.take(i as int)[k] == (mm, xx));
                    }
                }
                if prev.contains((mm, xx)) {
                    let k = choose|k: int| 0 <= k < prev.len() && #[trigger] prev[k] == (mm, xx);
                    assert(lv.take(i + 1)[k] == (mm, xx));
                }
                if mm == lv[i as int].0 && xx == lv[i as int].1 {
                    assert(lv.take(i + 1)[i as int] == (mm, xx));
                }
            }
        }
        i += 1;
    }
    assert(lv.take(pairs@.len() as int) =~= lv);
    groups
}

} // verus!
