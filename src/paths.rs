//! Route path normalization and route patterns.
//!
//! A path is normalized by trimming white space, adding a leading `/`,
//! collapsing runs of `/` and dropping one trailing `/` (but `/` stays).
//! A normalized pattern ending in `/*` matches the normalized paths that
//! start with its prefix followed by `/` (`/*` matches every path); any
//! other pattern matches its own normalized form only.
use vstd::prelude::*;
use crate::text::{
    chars_of, ends_with, is_ws, seq_ends_with, seq_starts_with, starts_with, string_of, trim,
    trim_end_seq, trim_seq, trim_start_seq,
};

verus! {

pub open spec fn with_lead_slash(t: Seq<char>) -> Seq<char> {
    if t.len() > 0 && t[0] == '/' {
        t
    } else {
        seq!['/'] + t
    }
}

/// `s` with every run of `/` replaced by one `/`.
pub open spec fn collapse_slashes(s: Seq<char>) -> Seq<char>
    decreases s.len(),
{
    if s.len() == 0 {
        s
    } else {
        let p = collapse_slashes(s.drop_last());
        if s.last() == '/' && p.len() > 0 && p.last() == '/' {
            p
        } else {
            p.push(s.last())
        }
    }
}

pub open spec fn strip_trailing_slash(s: Seq<char>) -> Seq<char> {
    if s.len() > 1 && s.last() == '/' {
        s.drop_last()
    } else {
        s
    }
}

/// The normalized form of a route path.
pub open spec fn norm(s: Seq<char>) -> Seq<char> {
    strip_trailing_slash(collapse_slashes(with_lead_slash(trim_seq(s))))
}

/// No two adjacent `/`.
pub open spec fn no_double_slash(s: Seq<char>) -> bool {
    forall|i: int| 0 <= i < s.len() - 1 ==> !(#[trigger] s[i] == '/' && s[i + 1] == '/')
}

pub open spec fn wildcard_suffix() -> Seq<char> {
    seq!['/', '*']
}

/// Whether `pattern` matches `path`, both taken in normalized form.
pub open spec fn route_match(pattern: Seq<char>, path: Seq<char>) -> bool {
    let pn = norm(path);
    let tn = norm(pattern);
    if ends_with(tn, wildcard_suffix()) {
        let pre = tn.subrange(0, tn.len() - 2);
        pre.len() == 0 || starts_with(pn, pre.push('/'))
    } else {
        tn == pn
    }
}

/// Some pattern of `list` matches `path`.
pub open spec fn any_route_match(list: Seq<String>, path: Seq<char>) -> bool {
    exists|i: int| 0 <= i < list.len() && route_match((#[trigger] list[i])@, path)
}

proof fn lemma_collapse(s: Seq<char>)
    ensures
        no_double_slash(collapse_slashes(s)),
        collapse_slashes(s).len() <= s.len(),
        s.len() > 0 ==> collapse_slashes(s).len() > 0 && collapse_slashes(s)[0] == s[0]
            && collapse_slashes(s).last() == s.last(),
    decreases s.len(),
{
    if s.len() > 0 {
        let p = collapse_slashes(s.drop_last());
        lemma_collapse(s.drop_last());
        if s.len() > 1 {
            assert(s.drop_last()[0] == s[0]);
        }
        if !(s.last() == '/' && p.len() > 0 && p.last() == '/') {
            let q = p.push(s.last());
            assert forall|i: int| 0 <= i < q.len() - 1 implies !(#[trigger] q[i] == '/' && q[i + 1] == '/') by {
                if i < p.len() - 1 {
                    assert(q[i] == p[i] && q[i + 1] == p[i + 1]);
                }
            }
        }
    }
}

proof fn lemma_collapse_id(s: Seq<char>)
    requires
        no_double_slash(s),
    ensures
        collapse_slashes(s) == s,
    decreases s.len(),
{
    if s.len() > 0 {
        let d = s.drop_last();
        assert forall|i: int| 0 <= i < d.len() - 1 implies !(#[trigger] d[i] == '/' && d[i + 1] == '/') by {
            assert(d[i] == s[i] && d[i + 1] == s[i + 1]);
        }
        lemma_collapse_id(d);
        if d.len() > 0 {
            assert(!(s[s.len() - 2] == '/' && s[s.len() - 1] == '/'));
        }
        assert(d.push(s.last()) =~= s);
    }
}

proof fn lemma_trim_id(s: Seq<char>)
    requires
        s.len() > 0,
        !is_ws(s[0]),
        !is_ws(s.last()),
    ensures
        trim_seq(s) == s,
{
    assert(trim_start_seq(s) == s);
    assert(trim_end_seq(s) == s);
}

/// What every normalized path looks like.
pub proof fn lemma_norm_shape(x: Seq<char>)
    ensures
        norm(x).len() > 0,
        norm(x)[0] == '/',
        no_double_slash(norm(x)),
        norm(x).len() == 1 || norm(x).last() != '/',
{
    let w = with_lead_slash(trim_seq(x));
    let c = collapse_slashes(w);
    lemma_collapse(w);
    if c.len() > 1 && c.last() == '/' {
        let y = c.drop_last();
        assert(!(c[c.len() - 2] == '/' && c[c.len() - 1] == '/'));
        assert forall|i: int| 0 <= i < y.len() - 1 implies !(#[trigger] y[i] == '/' && y[i + 1] == '/') by {
            assert(y[i] == c[i] && y[i + 1] == c[i + 1]);
        }
    }
}

/// Normalizing twice gives what normalizing once gives, for every input
/// whose normalized form does not end in white space.
pub proof fn lemma_norm_idempotent(x: Seq<char>)
    requires
        norm(x).len() == 1 || !is_ws(norm(x).last()),
    ensures
        norm(norm(x)) == norm(x),
{
    let y = norm(x);
    lemma_norm_shape(x);
    lemma_trim_id(y);
    assert(with_lead_slash(y) == y);
    lemma_collapse_id(y);
}

/// Copies the first `n` characters of `v`.
pub fn take_chars(v: &Vec<char>, n: usize) -> (r: Vec<char>)
    requires
        n <= v@.len(),
    ensures
        r@ == v@.take(n as int),
{
    let mut out: Vec<char> = Vec::new();
    let mut i: usize = 0;
    while i < n
        invariant
            n <= v@.len(),
            i <= n,
            out@ == v@.take(i as int),
        decreases n - i,
    {
        out.push(v[i]);
        assert(v@.take(i as int).push(v@[i as int]) =~= v@.take(i + 1));
        i += 1;
    }
    out
}

fn normalize_chars(p: &str) -> (r: Vec<char>)
    ensures
        r@ == norm(p@),
{
    let t = trim(p);
    let tv = chars_of(t);
    let mut q: Vec<char> = Vec::new();
    if tv.len() == 0 || tv[0] != '/' {
        q.push('/');
    }
    let ghost q0 = q@;
    let mut i: usize = 0;
    while i < tv.len()
        invariant
            i <= tv@.len(),
            q@ == q0 + tv@.take(i as int),
        decreases tv@.len() - i,
    {
        q.push(tv[i]);
        assert(q0 + tv@.take(i as int) + seq![tv@[i as int]] =~= q0 + tv@.take(i + 1));
        i += 1;
    }
    assert(tv@.take(tv@.len() as int) =~= tv@);
    assert(q@ =~= with_lead_slash(trim_seq(p@)));
    let mut out: Vec<char> = Vec::new();
    let mut j: usize = 0;
    while j < q.len()
        invariant
            j <= q@.len(),
            out@ == collapse_slashes(q@.take(j as int)),
        decreases q@.len() - j,
    {
        let c = q[j];
        assert(q@.take(j + 1).drop_last() =~= q@.take(j as int));
        if c == '/' && out.len() > 0 && out[out.len() - 1] == '/' {
        } else {
            out.push(c);
        }
        j += 1;
    }
    assert(q@.take(q@.len() as int) =~= q@);
    if out.len() > 1 && out[out.len() - 1] == '/' {
        out.pop();
    }
    out
}

/// The normalized form of `p`.
pub fn normalize_path(p: &str) -> (r: String)
    ensures
        r@ == norm(p@),
{
    let v = normalize_chars(p);
    string_of(&v)
}

/// Whether `pattern` matches `path` once both are normalized.
pub fn route_matches(pattern: &str, path: &str) -> (r: bool)
    ensures
        r == route_match(pattern@, path@),
{
    let pn = normalize_chars(path);
    let tn = normalize_chars(pattern);
    let suffix: Vec<char> = vec!['/', '*'];
    assert(suffix@ =~= wildcard_suffix());
    if seq_ends_with(&tn, &suffix) {
        let mut pre = take_chars(&tn, tn.len() - 2);
        assert(pre@ =~= tn@.subrange(0, tn@.len() - 2));
        if pre.len() == 0 {
            return true;
        }
        pre.push('/');
        seq_starts_with(&pn, &pre)
    } else {
        if pn.len() != tn.len() {
            return false;
        }
        let mut i: usize = 0;
        while i < pn.len()
            invariant
                pn@.len() == tn@.len(),
                pn@ == norm(path@),
                tn@ == norm(pattern@),
                !ends_with(tn@, wildcard_suffix()),
                i <= pn@.len(),
                forall|k: int| 0 <= k < i ==> pn@[k] == tn@[k],
            decreases pn@.len() - i,
        {
            if pn[i] != tn[i] {
                assert(pn@[i as int] != tn@[i as int]);
                return false;
            }
            i += 1;
        }
        assert(pn@ =~= tn@);
        true
    }
}

/// Whether some pattern of `protected_routes` matches `path`.
pub fn route_requires_auth(path: &str, protected_routes: &[String]) -> (r: bool)
    ensures
        r == any_route_match(protected_routes@, path@),
{
    let mut i: usize = 0;
    while i < protected_routes.len()
        invariant
            i <= protected_routes@.len(),
            forall|k: int| 0 <= k < i ==> !route_match((#[trigger] protected_routes@[k])@, path@),
        decreases protected_routes@.len() - i,
    {
        if route_matches(protected_routes[i].as_str(), path) {
            return true;
        }
        i += 1;
    }
    false
}

} // verus!
