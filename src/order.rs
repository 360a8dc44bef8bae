//! Strings in code-point order (the order of `str`'s `Ord`), and sorted
//! sets of strings.
use vstd::prelude::*;
use crate::json::views;
use crate::text::{chars_of, str_eq};

verus! {

/// `a` comes strictly before `b` in code-point order.
pub open spec fn lex_lt(a: Seq<char>, b: Seq<char>) -> bool
    decreases a.len(),
{
    if a.len() == 0 {
        b.len() > 0
    } else if b.len() == 0 {
        false
    } else if a[0] != b[0] {
        a[0] < b[0]
    } else {
        lex_lt(a.drop_first(), b.drop_first())
    }
}

pub proof fn lemma_lt_irreflexive(a: Seq<char>)
    ensures
        !lex_lt(a, a),
    decreases a.len(),
{
    if a.len() > 0 {
        lemma_lt_irreflexive(a.drop_first());
    }
}

pub proof fn lemma_lt_transitive(a: Seq<char>, b: Seq<char>, c: Seq<char>)
    requires
        lex_lt(a, b),
        lex_lt(b, c),
    ensures
        lex_lt(a, c),
    decreases a.len(),
{
    if a.len() > 0 && b.len() > 0 && c.len() > 0 && a[0] == b[0] && b[0] == c[0] {
        lemma_lt_transitive(a.drop_first(), b.drop_first(), c.drop_first());
    }
}

pub proof fn lemma_lt_total(a: Seq<char>, b: Seq<char>)
    requires
        a != b,
    ensures
        lex_lt(a, b) || lex_lt(b, a),
    decreases a.len(),
{
    if a.len() > 0 && b.len() > 0 && a[0] == b[0] {
        if a.drop_first() == b.drop_first() {
            assert(a =~= seq![a[0]] + a.drop_first());
            assert(b =~= seq![b[0]] + b.drop_first());
        }
        lemma_lt_total(a.drop_first(), b.drop_first());
    } else if a.len() == 0 && b.len() == 0 {
        assert(a =~= b);
    }
}

/// Strictly increasing, so without repeats.
pub open spec fn sorted(s: Seq<Seq<char>>) -> bool {
    forall|i: int, j: int| 0 <= i < j < s.len() ==> lex_lt(#[trigger] s[i], #[trigger] s[j])
}

/// Whether `a` comes strictly before `b`.
pub fn less(a: &str, b: &str) -> (r: bool)
    ensures
        r == lex_lt(a@, b@),
{
    let av = chars_of(a);
    let bv = chars_of(b);
    let mut i: usize = 0;
    assert(av@.skip(0) =~= av@);
    assert(bv@.skip(0) =~= bv@);
    while i < av.len() && i < bv.len() && av[i] == bv[i]
        invariant
            i <= av@.len(),
            i <= bv@.len(),
            lex_lt(a@, b@) == lex_lt(av@.skip(i as int), bv@.skip(i as int)),
            av@ == a@,
            bv@ == b@,
        decreases av@.len() - i,
    {
        assert(av@.skip(i as int).drop_first() =~= av@.skip(i + 1));
        assert(bv@.skip(i as int).drop_first() =~= bv@.skip(i + 1));
        i += 1;
    }
    if i == av.len() {
        i < bv.len()
    } else if i == bv.len() {
        false
    } else {
        av[i] < bv[i]
    }
}

/// Adds `x` to the sorted strings `v`, keeping them sorted; nothing changes
/// when `x` is already there.
pub fn insert_sorted(v: &mut Vec<String>, x: String)
    requires
        sorted(views(old(v)@)),
    ensures
        sorted(views(final(v)@)),
        forall|s: Seq<char>| #[trigger] views(final(v)@).contains(s) <==> (views(old(v)@).contains(s) || s == x@),
{
    let ghost old_v = views(v@);
    let mut i: usize = 0;
    while i < v.len() && less(v[i].as_str(), x.as_str())
        invariant
            i <= v@.len(),
            views(v@) == old_v,
            sorted(old_v),
            forall|a: int| 0 <= a < i ==> lex_lt(#[trigger] old_v[a], x@),
        decreases v@.len() - i,
    {
        assert(old_v[i as int] == v@[i as int]@);
        i += 1;
    }
    if i < v.len() && str_eq(v[i].as_str(), x.as_str()) {
        assert(old_v[i as int] == x@);
        return;
    }
    proof {
        if i < v@.len() {
            assert(old_v[i as int] == v@[i as int]@);
            lemma_lt_total(old_v[i as int], x@);
        }
    }
    v.insert(i, x);
    proof {
        let w = views(v@);
        assert(w =~= old_v.subrange(0, i as int).push(x@) + old_v.subrange(i as int, old_v.len() as int));
        assert forall|a: int, b: int| 0 <= a < b < w.len() implies lex_lt(#[trigger] w[a], #[trigger] w[b]) by {
            if b < i {
                assert(w[a] == old_v[a] && w[b] == old_v[b]);
            } else if b == i {
                assert(w[a] == old_v[a]);
            } else if a == i {
                assert(w[b] == old_v[b - 1]);
                if b - 1 > i {
                    lemma_lt_transitive(x@, old_v[i as int], old_v[b - 1]);
                }
            } else if a < i {
                assert(w[a] == old_v[a] && w[b] == old_v[b - 1]);
            } else {
                assert(w[a] == old_v[a - 1] && w[b] == old_v[b - 1]);
            }
        }
        assert forall|s: Seq<char>| #[trigger] w.contains(s) <==> (old_v.contains(s) || s == x@) by {
            if w.contains(s) {
                let k = choose|k: int| 0 <= k < w.len() && w[k] == s;
                if k < i {
                    assert(old_v[k] == s);
                } else if k > i {
                    assert(old_v[k - 1] == s);
                }
            }
            if old_v.contains(s) {
                let k = choose|k: int| 0 <= k < old_v.len() && old_v[k] == s;
                if k < i {
                    assert(w[k] == s);
                } else {
                    assert(w[k + 1] == s);
                }
            }
            if s == x@ {
                assert(w[i as int] == s);
            }
        }
    }
}

/// `names` in code-point order, each once.
pub fn sorted_names(names: Vec<String>) -> (r: Vec<String>)
    ensures
        sorted(views(r@)),
        forall|s: Seq<char>| #[trigger] views(r@).contains(s) <==> views(names@).contains(s),
{
    let mut out: Vec<String> = Vec::new();
    let mut i: usize = 0;
    while i < names.len()
        invariant
            i <= names@.len(),
            sorted(views(out@)),
            forall|s: Seq<char>| #[trigger] views(out@).contains(s) <==> views(names@.take(i as int)).contains(s),
        decreases names@.len() - i,
    {
        insert_sorted(&mut out, names[i].clone());
        proof {
            let prev = views(names@.take(i as int));
            let next = views(names@.take(i + 1));
            assert(next =~= prev.push(names@[i as int]@));
            assert forall|s: Seq<char>| #[trigger] views(out@).contains(s) <==> next.contains(s) by {
                if prev.contains(s) {
                    let k = choose|k: int| 0 <= k < prev.len() && prev[k] == s;
                    assert(next[k] == s);
                }
                if next.contains(s) {
                    let k = choose|k: int| 0 <= k < next.len() && next[k] == s;
                    if k < prev.len() {
                        assert(prev[k] == s);
                    }
                }
                if s == names@[i as int]@ {
                    assert(next[i as int] == s);
                }
            }
        }
        i += 1;
    }
    assert(names@.take(names@.len() as int) =~= names@);
    out
}

} // verus!
