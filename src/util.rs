//! The route a legacy library without a `route_path` symbol serves, derived
//! from where its file lies under the deployment directory.
use vstd::prelude::*;
use crate::text::{chars_of, concat, seq_starts_with, skip_chars, starts_with, string_of};

verus! {

/// `path` below `base`, compared as text: empty when they are equal, else
/// what follows `base` and one `/`.
pub open spec fn relative(base: Seq<char>, path: Seq<char>) -> Option<Seq<char>> {
    if path == base {
        Some(Seq::empty())
    } else if starts_with(path, base.push('/')) {
        Some(path.skip(base.len() as int + 1))
    } else {
        None
    }
}

pub open spec fn slashes(s: Seq<char>) -> Seq<char> {
    s.map_values(|c: char| if c == '\\' { '/' } else { c })
}

/// `s` cut before its last `.`, or all of `s` without one.
pub open spec fn cut_extension(s: Seq<char>) -> Seq<char>
    decreases s.len(),
{
    if s.len() == 0 {
        s
    } else if s.last() == '.' {
        s.drop_last()
    } else if crate::text::has_char(s.drop_last(), '.') {
        cut_extension(s.drop_last())
    } else {
        s
    }
}

pub open spec fn route_of(base: Seq<char>, path: Seq<char>) -> Option<Seq<char>> {
    match relative(base, path) {
        Some(rel) => {
            let s = cut_extension(slashes(rel));
            if starts_with(s, "api/"@) {
                Some(seq!['/'] + s)
            } else {
                Some("/api/"@ + s)
            }
        },
        None => None,
    }
}

proof fn lemma_cut(s: Seq<char>, i: int)
    requires
        0 <= i <= s.len(),
        forall|k: int| i <= k < s.len() ==> s[k] != '.',
        i == 0 || s[i - 1] == '.',
    ensures
        cut_extension(s) == if i == 0 { s } else { s.take(i - 1) },
    decreases s.len(),
{
    if s.len() > 0 {
        if s.last() == '.' {
            assert(i == s.len());
            assert(s.take(i - 1) =~= s.drop_last());
        } else {
            lemma_cut(s.drop_last(), i);
            if i == 0 {
                assert(!crate::text::has_char(s.drop_last(), '.'));
            } else {
                assert(s.drop_last()[i - 1] == '.');
                assert(s.drop_last().take(i - 1) =~= s.take(i - 1));
            }
        }
    }
}

/// The route of a library file at `path` below `base`: its relative path
/// with `/` separators and without extension, under `/api/` unless it
/// already starts with `api/`.
pub fn path_to_route(base: &str, path: &str) -> (r: Option<String>)
    ensures
        match route_of(base@, path@) {
            Some(x) => r is Some && r->0@ == x,
            None => r is None,
        },
{
    let bv = chars_of(base);
    let pv = chars_of(path);
    let mut bs = chars_of(base);
    bs.push('/');
    let rel: Vec<char> = if crate::text::str_eq(base, path) {
        Vec::new()
    } else if seq_starts_with(&pv, &bs) {
        skip_chars(&pv, bs.len())
    } else {
        return None;
    };
    let mut s: Vec<char> = Vec::new();
    let mut i: usize = 0;
    while i < rel.len()
        invariant
            i <= rel@.len(),
            s@ == slashes(rel@.take(i as int)),
        decreases rel@.len() - i,
    {
        let c = rel[i];
        s.push(if c == '\\' { '/' } else { c });
        assert(slashes(rel@.take(i + 1)) =~= slashes(rel@.take(i as int)).push(if c == '\\' { '/' } else { c }));
        i += 1;
    }
    assert(rel@.take(rel@.len() as int) =~= rel@);
    let mut j: usize = s.len();
    while j > 0 && s[j - 1] != '.'
        invariant
            j <= s@.len(),
            forall|k: int| j <= k < s@.len() ==> s@[k] != '.',
        decreases j,
    {
        j -= 1;
    }
    proof {
        lemma_cut(s@, j as int);
    }
    let cut = if j == 0 {
        s
    } else {
        crate::paths::take_chars(&s, j - 1)
    };
    let cs = string_of(&cut);
    let api: Vec<char> = vec!['a', 'p', 'i', '/'];
    proof {
        reveal_strlit("api/");
        reveal_strlit("/");
        reveal_strlit("/api/");
    }
    assert(api@ =~= "api/"@);
    if seq_starts_with(&cut, &api) {
        let r = concat("/", cs.as_str());
        assert(r@ =~= seq!['/'] + cut@);
        Some(r)
    } else {
        Some(concat("/api/", cs.as_str()))
    }
}

} // verus!
