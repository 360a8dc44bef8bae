//! A JSON value as plain data, and the lookups the host performs on
//! settings, manifests and request bodies.
use vstd::prelude::*;
use crate::text::str_eq;

verus! {

/// A JSON number: non-negative integers that fit `u64`, negative integers
/// that fit `i64`, and every other number as its decimal text.
pub enum JsonNumber {
    Unsigned(u64),
    Signed(i64),
    Other(String),
}

/// A JSON value. Object members keep their order; lookups take the first
/// member with a given key.
pub enum Json {
    Null,
    Bool(bool),
    Number(JsonNumber),
    Str(String),
    Array(Vec<Json>),
    Object(Vec<(String, Json)>),
}

/// The value of the first member named `key`.
pub open spec fn member(entries: Seq<(String, Json)>, key: Seq<char>) -> Option<Json>
    decreases entries.len(),
{
    if entries.len() == 0 {
        None
    } else if entries[0].0@ == key {
        Some(entries[0].1)
    } else {
        member(entries.drop_first(), key)
    }
}

/// The string elements of `items`, in order; other elements are skipped.
pub open spec fn string_items(items: Seq<Json>) -> Seq<Seq<char>>
    decreases items.len(),
{
    if items.len() == 0 {
        Seq::empty()
    } else {
        let head = string_items(items.drop_last());
        match items.last() {
            Json::Str(s) => head.push(s@),
            _ => head,
        }
    }
}

/// `r` refers to the value `m` holds, or both are empty.
pub open spec fn same_value(r: Option<&Json>, m: Option<Json>) -> bool {
    match r {
        Some(x) => m == Some(*x),
        None => m is None,
    }
}

pub open spec fn views(v: Seq<String>) -> Seq<Seq<char>> {
    v.map_values(|s: String| s@)
}

impl Json {
    pub open spec fn get_spec(self, key: Seq<char>) -> Option<Json> {
        match self {
            Json::Object(entries) => member(entries@, key),
            _ => None,
        }
    }

    pub open spec fn as_u64_spec(self) -> Option<u64> {
        match self {
            Json::Number(JsonNumber::Unsigned(n)) => Some(n),
            _ => None,
        }
    }

    /// The strings of an array value; nothing for any other value.
    pub open spec fn strings_spec(self) -> Seq<Seq<char>> {
        match self {
            Json::Array(items) => string_items(items@),
            _ => Seq::empty(),
        }
    }

    /// The member `key` of an object value.
    pub fn get(&self, key: &str) -> (r: Option<&Json>)
        ensures
            same_value(r, self.get_spec(key@)),
    {
        match self {
            Json::Object(entries) => member_of(entries, key),
            _ => None,
        }
    }

    pub fn as_bool(&self) -> (r: Option<bool>)
        ensures
            r == (match *self {
                Json::Bool(b) => Some(b),
                _ => None,
            }),
    {
        match self {
            Json::Bool(b) => Some(*b),
            _ => None,
        }
    }

    pub fn as_u64(&self) -> (r: Option<u64>)
        ensures
            r == self.as_u64_spec(),
    {
        match self {
            Json::Number(JsonNumber::Unsigned(n)) => Some(*n),
            _ => None,
        }
    }

    pub fn as_str(&self) -> (r: Option<&str>)
        ensures
            match *self {
                Json::Str(s) => r is Some && r->0@ == s@,
                _ => r is None,
            },
    {
        match self {
            Json::Str(s) => Some(s.as_str()),
            _ => None,
        }
    }

    /// The string elements of an array value, in order.
    pub fn strings(&self) -> (r: Vec<String>)
        ensures
            views(r@) == self.strings_spec(),
    {
        match self {
            Json::Array(items) => {
                let mut out: Vec<String> = Vec::new();
                let mut i: usize = 0;
                while i < items.len()
                    invariant
                        i <= items@.len(),
                        views(out@) == string_items(items@.take(i as int)),
                    decreases items@.len() - i,
                {
                    assert(items@.take(i + 1).drop_last() =~= items@.take(i as int));
                    match &items[i] {
                        Json::Str(s) => {
                            out.push(s.clone());
                            assert(views(out@) =~= views(out@.drop_last()).push(s@));
                        },
                        _ => {},
                    }
                    i += 1;
                }
                assert(items@.take(items@.len() as int) =~= items@);
                out
            },
            _ => Vec::new(),
        }
    }
}

/// The value of the first member of `entries` named `key`.
pub fn member_of<'a>(entries: &'a Vec<(String, Json)>, key: &str) -> (r: Option<&'a Json>)
    ensures
        same_value(r, member(entries@, key@)),
{
    let mut i: usize = 0;
    assert(entries@.skip(0) =~= entries@);
    while i < entries.len()
        invariant
            i <= entries@.len(),
            member(entries@, key@) == member(entries@.skip(i as int), key@),
        decreases entries@.len() - i,
    {
        assert(entries@.skip(i as int).drop_first() =~= entries@.skip(i + 1));
        if str_eq(entries[i].0.as_str(), key) {
            return Some(&entries[i].1);
        }
        i += 1;
    }
    None
}

/// None of the first `i` members is named `key`.
pub open spec fn keys_differ(entries: Seq<(String, Json)>, i: int, key: Seq<char>) -> bool
    decreases i,
{
    if i <= 0 {
        true
    } else {
        entries[i - 1].0@ != key && keys_differ(entries, i - 1, key)
    }
}

proof fn lemma_keys_differ(entries: Seq<(String, Json)>, i: int, key: Seq<char>)
    requires
        keys_differ(entries, i, key),
    ensures
        forall|j: int| 0 <= j < i ==> (#[trigger] entries[j]).0@ != key,
    decreases i,
{
    if i > 0 {
        lemma_keys_differ(entries, i - 1, key);
    }
}

pub(crate) proof fn lemma_member_at(entries: Seq<(String, Json)>, i: int, key: Seq<char>)
    requires
        0 <= i < entries.len(),
        entries[i].0@ == key,
        keys_differ(entries, i, key),
    ensures
        member(entries, key) == Some(entries[i].1),
{
    lemma_keys_differ(entries, i, key);
    lemma_member_after(entries, i, key);
}

proof fn lemma_member_after(entries: Seq<(String, Json)>, i: int, key: Seq<char>)
    requires
        0 <= i < entries.len(),
        entries[i].0@ == key,
        forall|j: int| 0 <= j < i ==> (#[trigger] entries[j]).0@ != key,
    ensures
        member(entries, key) == Some(entries[i].1),
    decreases i,
{
    if i > 0 {
        let rest = entries.drop_first();
        assert forall|j: int| 0 <= j < i - 1 implies (#[trigger] rest[j]).0@ != key by {
            assert(rest[j] == entries[j + 1]);
        }
        lemma_member_after(rest, i - 1, key);
    }
}

/// No member is named `key`, so looking it up finds nothing.
pub(crate) proof fn lemma_member_absent(entries: Seq<(String, Json)>, key: Seq<char>)
    requires
        keys_differ(entries, entries.len() as int, key),
    ensures
        member(entries, key) is None,
{
    lemma_keys_differ(entries, entries.len() as int, key);
    lemma_no_member(entries, key);
}

proof fn lemma_no_member(entries: Seq<(String, Json)>, key: Seq<char>)
    requires
        forall|j: int| 0 <= j < entries.len() ==> (#[trigger] entries[j]).0@ != key,
    ensures
        member(entries, key) is None,
    decreases entries.len(),
{
    if entries.len() > 0 {
        let rest = entries.drop_first();
        assert(entries[0].0@ != key);
        assert forall|j: int| 0 <= j < rest.len() implies (#[trigger] rest[j]).0@ != key by {
            assert(rest[j] == entries[j + 1]);
        }
        lemma_no_member(rest, key);
    }
}

/// A JSON string holding `s`.
pub(crate) fn json_text(s: &str) -> (r: Json)
    ensures
        r matches Json::Str(t) && t@ == s@,
{
    Json::Str(String::from_str(s))
}

/// A member name.
pub(crate) fn json_key(k: &str) -> (r: String)
    ensures
        r@ == k@,
{
    String::from_str(k)
}

/// What looking up `key` gives once a member is appended.
pub open spec fn member_after_push(old: Option<Json>, k: Seq<char>, v: Json, key: Seq<char>) -> Option<Json> {
    match old {
        Some(x) => Some(x),
        None => if k == key {
            Some(v)
        } else {
            None
        },
    }
}

proof fn lemma_member_push(e: Seq<(String, Json)>, m: (String, Json), key: Seq<char>)
    ensures
        member(e.push(m), key) == member_after_push(member(e, key), m.0@, m.1, key),
    decreases e.len(),
{
    let p = e.push(m);
    if e.len() > 0 {
        assert(p[0] == e[0]);
        assert(p.drop_first() =~= e.drop_first().push(m));
        lemma_member_push(e.drop_first(), m, key);
        if e[0].0@ != key {
            assert(member(p, key) == member(p.drop_first(), key));
            assert(member(e, key) == member(e.drop_first(), key));
        }
    } else {
        assert(p[0] == m);
        assert(p.drop_first() =~= Seq::<(String, Json)>::empty());
        assert(member(p.drop_first(), key) is None);
        assert(member(e, key) is None);
    }
}

/// Appends the member `k: v`; earlier members named `k` still win lookups.
pub(crate) fn push_member(e: &mut Vec<(String, Json)>, k: &str, v: Json)
    ensures
        forall|key: Seq<char>| #[trigger] member(final(e)@, key) == member_after_push(member(old(e)@, key), k@, v, key),
{
    let ghost before = e@;
    let ghost vv = v;
    let name = json_key(k);
    e.push((name, v));
    proof {
        assert(e@[e@.len() - 1].0@ == k@);
        assert(e@[e@.len() - 1].1 == vv);
        assert forall|key: Seq<char>| #[trigger] member(e@, key) == member_after_push(member(before, key), k@, vv, key) by {
            lemma_member_push(before, e@[e@.len() - 1], key);
            assert(before.push(e@[e@.len() - 1]) =~= e@);
        }
    }
}

} // verus!
