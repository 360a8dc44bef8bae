//! Reading a package name out of a `Cargo.toml` text: the first non-empty
//! `name = "..."` line inside the `[package]` table.
use vstd::prelude::*;
use crate::text::{before_sep, chars_of, has_char, split_once, starts_with, string_of, trim, trim_seq};

verus! {

/// `s` cut at every `\n`; the last piece is what follows the last `\n`.
pub open spec fn pieces(s: Seq<char>) -> Seq<Seq<char>>
    decreases s.len(),
{
    if s.len() == 0 {
        seq![Seq::empty()]
    } else {
        let p = pieces(s.drop_last());
        if s.last() == '\n' {
            p.push(Seq::empty())
        } else {
            p.update(p.len() - 1, p.last().push(s.last()))
        }
    }
}

pub open spec fn drop_cr(l: Seq<char>) -> Seq<char> {
    if l.len() > 0 && l.last() == '\r' {
        l.drop_last()
    } else {
        l
    }
}

/// The lines of `s` as `str::lines` yields them: no final empty line, and
/// a `\r` before each line end dropped.
pub open spec fn lines_of(s: Seq<char>) -> Seq<Seq<char>> {
    let p = pieces(s);
    let p = if p.last().len() == 0 {
        p.drop_last()
    } else {
        p
    };
    p.map_values(|l: Seq<char>| drop_cr(l))
}

pub open spec fn strip_start_quotes(s: Seq<char>) -> Seq<char>
    decreases s.len(),
{
    if s.len() > 0 && s[0] == '"' {
        strip_start_quotes(s.drop_first())
    } else {
        s
    }
}

pub open spec fn strip_end_quotes(s: Seq<char>) -> Seq<char>
    decreases s.len(),
{
    if s.len() > 0 && s.last() == '"' {
        strip_end_quotes(s.drop_last())
    } else {
        s
    }
}

/// The value of a `key = value` line: the text between the first and the
/// second `=`, trimmed and without surrounding quotes.
pub open spec fn line_value(l: Seq<char>) -> Seq<char> {
    let after = l.skip(before_sep(l, '=').len() as int + 1);
    strip_end_quotes(strip_start_quotes(trim_seq(before_sep(after, '='))))
}

/// The package name found in `lines`, scanning in order; `in_package`
/// says whether the scan is inside the `[package]` table.
pub open spec fn scan(lines: Seq<Seq<char>>, in_package: bool) -> Option<Seq<char>>
    decreases lines.len(),
{
    if lines.len() == 0 {
        None
    } else {
        let l = trim_seq(lines[0]);
        if starts_with(l, "["@) {
            scan(lines.drop_first(), l == "[package]"@)
        } else if in_package && starts_with(l, "name"@) && has_char(l, '=') && line_value(l).len() > 0 {
            Some(line_value(l))
        } else {
            scan(lines.drop_first(), in_package)
        }
    }
}

fn lines(s: &str) -> (r: Vec<Vec<char>>)
    ensures
        r@.map_values(|l: Vec<char>| l@) == lines_of(s@),
{
    let v = chars_of(s);
    let mut ps: Vec<Vec<char>> = Vec::new();
    ps.push(Vec::new());
    let mut i: usize = 0;
    assert(v@.take(0) =~= Seq::<char>::empty());
    assert(ps@.map_values(|l: Vec<char>| l@) =~= pieces(v@.take(0)));
    while i < v.len()
        invariant
            i <= v@.len(),
            ps@.len() > 0,
            ps@.map_values(|l: Vec<char>| l@) == pieces(v@.take(i as int)),
        decreases v@.len() - i,
    {
        let c = v[i];
        let ghost prev = ps@.map_values(|l: Vec<char>| l@);
        assert(v@.take(i + 1).drop_last() =~= v@.take(i as int));
        if c == '\n' {
            ps.push(Vec::new());
            assert(ps@.map_values(|l: Vec<char>| l@) =~= prev.push(Seq::empty()));
        } else {
            let last = ps.len() - 1;
            let mut cur = ps.remove(last);
            cur.push(c);
            ps.push(cur);
            assert(ps@.map_values(|l: Vec<char>| l@) =~= prev.update(prev.len() - 1, prev.last().push(c)));
        }
        i += 1;
    }
    assert(v@.take(v@.len() as int) =~= v@);
    if ps[ps.len() - 1].len() == 0 {
        ps.pop();
    }
    let ghost kept = ps@.map_values(|l: Vec<char>| l@);
    let mut out: Vec<Vec<char>> = Vec::new();
    let mut k: usize = 0;
    while k < ps.len()
        invariant
            k <= ps@.len(),
            kept == ps@.map_values(|l: Vec<char>| l@),
            out@.map_values(|l: Vec<char>| l@) == kept.take(k as int).map_values(|l: Seq<char>| drop_cr(l)),
        decreases ps@.len() - k,
    {
        let mut l = crate::paths::take_chars(&ps[k], ps[k].len());
        assert(ps@[k as int]@.take(ps@[k as int]@.len() as int) =~= ps@[k as int]@);
        if l.len() > 0 && l[l.len() - 1] == '\r' {
            l.pop();
        }
        let ghost prev = out@.map_values(|l: Vec<char>| l@);
        assert(l@ == drop_cr(kept[k as int]));
        out.push(l);
        assert(out@.map_values(|l: Vec<char>| l@) =~= prev.push(drop_cr(kept[k as int])));
        assert(kept.take(k + 1).map_values(|l: Seq<char>| drop_cr(l)) =~= kept.take(k as int).map_values(|l: Seq<char>| drop_cr(l)).push(drop_cr(kept[k as int])));
        k += 1;
    }
    assert(kept.take(ps@.len() as int) =~= kept);
    out
}

fn strip_quotes(v: &Vec<char>) -> (r: Vec<char>)
    ensures
        r@ == strip_end_quotes(strip_start_quotes(v@)),
{
    let mut i: usize = 0;
    assert(v@.skip(0) =~= v@);
    while i < v.len() && v[i] == '"'
        invariant
            i <= v@.len(),
            strip_start_quotes(v@) == strip_start_quotes(v@.skip(i as int)),
        decreases v@.len() - i,
    {
        assert(v@.skip(i as int).drop_first() =~= v@.skip(i + 1));
        i += 1;
    }
    let mut w = crate::text::skip_chars(v, i);
    assert(strip_start_quotes(w@) == w@);
    let ghost start = w@;
    while w.len() > 0 && w[w.len() - 1] == '"'
        invariant
            strip_end_quotes(w@) == strip_end_quotes(start),
        decreases w@.len(),
    {
        w.pop();
    }
    w
}

fn value_of(l: &Vec<char>) -> (r: Option<Vec<char>>)
    ensures
        match r {
            Some(v) => has_char(l@, '=') && v@ == line_value(l@),
            None => !has_char(l@, '='),
        },
{
    match split_once(l, '=') {
        Some((_, after)) => {
            let part = match split_once(&after, '=') {
                Some((a, _)) => a,
                None => {
                    proof {
                        lemma_no_sep(after@, '=');
                    }
                    after
                },
            };
            let ps = string_of(&part);
            let t = chars_of(trim(ps.as_str()));
            Some(strip_quotes(&t))
        },
        None => None,
    }
}

proof fn lemma_no_sep(s: Seq<char>, sep: char)
    requires
        !has_char(s, sep),
    ensures
        before_sep(s, sep) == s,
    decreases s.len(),
{
    if s.len() > 0 {
        assert(!has_char(s.drop_first(), sep)) by {
            if has_char(s.drop_first(), sep) {
                let i = choose|i: int| 0 <= i < s.drop_first().len() && s.drop_first()[i] == sep;
                assert(s[i + 1] == sep);
            }
        }
        lemma_no_sep(s.drop_first(), sep);
        assert(seq![s[0]] + s.drop_first() =~= s);
    }
}

/// The package name a `Cargo.toml` text declares, if any.
pub fn read_package_name(content: &str) -> (r: Option<String>)
    ensures
        match scan(lines_of(content@), false) {
            Some(n) => r is Some && r->0@ == n,
            None => r is None,
        },
{
    let ls = lines(content);
    let ghost lv = ls@.map_values(|l: Vec<char>| l@);
    let mut in_package = false;
    let mut i: usize = 0;
    assert(lv.skip(0) =~= lv);
    while i < ls.len()
        invariant
            i <= ls@.len(),
            lv == ls@.map_values(|l: Vec<char>| l@),
            lv == lines_of(content@),
            scan(lines_of(content@), false) == scan(lv.skip(i as int), in_package),
        decreases ls@.len() - i,
    {
        proof {
            reveal_strlit("[");
            reveal_strlit("[package]");
            reveal_strlit("name");
        }
        assert(lv.skip(i as int)[0] == ls@[i as int]@);
        assert(lv.skip(i as int).drop_first() =~= lv.skip(i + 1));
        let ls_i = string_of(&ls[i]);
        let l = chars_of(trim(ls_i.as_str()));
        let open_v: Vec<char> = vec!['['];
        assert(open_v@ =~= "["@);
        if crate::text::seq_starts_with(&l, &open_v) {
            let header = string_of(&l);
            in_package = crate::text::str_eq(header.as_str(), "[package]");
        } else {
            let name_v: Vec<char> = vec!['n', 'a', 'm', 'e'];
            assert(name_v@ =~= "name"@);
            if in_package && crate::text::seq_starts_with(&l, &name_v) {
                match value_of(&l) {
                    Some(v) => {
                        if v.len() > 0 {
                            return Some(string_of(&v));
                        }
                    },
                    None => {},
                }
            }
        }
        i += 1;
    }
    None
}

} // verus!
