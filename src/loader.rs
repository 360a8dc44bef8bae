//! Module discovery: reading route manifests, grouping handlers per path
//! into method sets, and the filters that settings impose.
use vstd::prelude::*;
use crate::json::{Json, member};
use crate::paths::{norm, normalize_path};
use crate::settings::FeaturesSettings;
use crate::text::{
    ascii_lower, chars_of, concat, contains, ends_with, seq_contains, seq_ends_with, seq_starts_with,
    skip_chars, starts_with, str_eq, string_of, to_ascii_lowercase, vec_has,
};

verus! {

/// The four methods a module can serve.
#[derive(Clone, Copy, PartialEq, Eq, Structural)]
pub enum Method {
    Get,
    Post,
    Put,
    Delete,
}

/// The method a manifest names (`get`, `post`, `put`, `delete`).
pub open spec fn method_named(s: Seq<char>) -> Option<Method> {
    if s == "get"@ {
        Some(Method::Get)
    } else if s == "post"@ {
        Some(Method::Post)
    } else if s == "put"@ {
        Some(Method::Put)
    } else if s == "delete"@ {
        Some(Method::Delete)
    } else {
        None
    }
}

/// The manifest key that holds the handler symbol of a method.
pub open spec fn symbol_key(m: Method) -> Seq<char> {
    match m {
        Method::Get => "get"@,
        Method::Post => "post_bytes"@,
        Method::Put => "put_bytes"@,
        Method::Delete => "delete"@,
    }
}

/// One usable entry of a route manifest.
pub struct ManifestEntry {
    pub path: String,
    pub method: Method,
    pub symbol: String,
    /// The declared content type, `application/json` by default.
    pub content_type: String,
}

pub open spec fn str_member(o: Seq<(String, Json)>, key: Seq<char>) -> Option<Seq<char>> {
    match member(o, key) {
        Some(Json::Str(s)) => Some(s@),
        _ => None,
    }
}

/// What an item of a manifest declares: path, method, handler symbol and
/// content type; nothing when the path is missing or empty, the method is
/// unknown, or the handler symbol is missing.
pub open spec fn entry_of(item: Json) -> Option<(Seq<char>, Method, Seq<char>, Seq<char>)> {
    match item {
        Json::Object(o) => {
            let path = match str_member(o@, "path"@) {
                Some(p) => p,
                None => Seq::empty(),
            };
            let method_text = match str_member(o@, "method"@) {
                Some(m) => m,
                None => "get"@,
            };
            let ct = match str_member(o@, "content_type"@) {
                Some(c) => c,
                None => "application/json"@,
            };
            match method_named(method_text) {
                Some(m) => match str_member(o@, symbol_key(m)) {
                    Some(sym) => if path.len() > 0 {
                        Some((path, m, sym, ct))
                    } else {
                        None
                    },
                    None => None,
                },
                None => None,
            }
        },
        _ => None,
    }
}

/// The usable entries of `items`, in order.
pub open spec fn entries_of(items: Seq<Json>) -> Seq<(Seq<char>, Method, Seq<char>, Seq<char>)>
    decreases items.len(),
{
    if items.len() == 0 {
        Seq::empty()
    } else {
        let head = entries_of(items.drop_last());
        match entry_of(items.last()) {
            Some(e) => head.push(e),
            None => head,
        }
    }
}

pub open spec fn entry_view(e: ManifestEntry) -> (Seq<char>, Method, Seq<char>, Seq<char>) {
    (e.path@, e.method, e.symbol@, e.content_type@)
}

fn str_value(v: Option<&Json>) -> (r: Option<String>)
    ensures
        match v {
            Some(Json::Str(s)) => r is Some && r->0@ == s@,
            _ => r is None,
        },
{
    match v {
        Some(Json::Str(s)) => Some(s.clone()),
        _ => None,
    }
}

fn method_of(s: &str) -> (r: Option<Method>)
    ensures
        r == method_named(s@),
{
    if str_eq(s, "get") {
        Some(Method::Get)
    } else if str_eq(s, "post") {
        Some(Method::Post)
    } else if str_eq(s, "put") {
        Some(Method::Put)
    } else if str_eq(s, "delete") {
        Some(Method::Delete)
    } else {
        None
    }
}

fn key_of(m: Method) -> (r: &'static str)
    ensures
        r@ == symbol_key(m),
{
    match m {
        Method::Get => "get",
        Method::Post => "post_bytes",
        Method::Put => "put_bytes",
        Method::Delete => "delete",
    }
}

/// What one manifest item declares.
pub fn read_entry(item: &Json) -> (r: Option<ManifestEntry>)
    ensures
        match r {
            Some(e) => entry_of(*item) == Some(entry_view(e)),
            None => entry_of(*item) is None,
        },
{
    match item {
        Json::Object(o) => {
            let path = match str_value(crate::json::member_of(o, "path")) {
                Some(p) => p,
                None => String::new(),
            };
            let method_text = match str_value(crate::json::member_of(o, "method")) {
                Some(m) => m,
                None => String::from_str("get"),
            };
            let ct = match str_value(crate::json::member_of(o, "content_type")) {
                Some(c) => c,
                None => String::from_str("application/json"),
            };
            match method_of(method_text.as_str()) {
                Some(m) => match str_value(crate::json::member_of(o, key_of(m))) {
                    Some(sym) => if path.as_str().unicode_len() > 0 {
                        Some(ManifestEntry { path, method: m, symbol: sym, content_type: ct })
                    } else {
                        None
                    },
                    None => None,
                },
                None => None,
            }
        },
        _ => None,
    }
}

/// The usable entries of a route manifest, in manifest order.
pub fn manifest_entries(items: &Vec<Json>) -> (r: Vec<ManifestEntry>)
    ensures
        r@.map_values(|e: ManifestEntry| entry_view(e)) == entries_of(items@),
{
    let mut out: Vec<ManifestEntry> = Vec::new();
    let mut i: usize = 0;
    while i < items.len()
        invariant
            i <= items@.len(),
            out@.map_values(|e: ManifestEntry| entry_view(e)) == entries_of(items@.take(i as int)),
        decreases items@.len() - i,
    {
        assert(items@.take(i + 1).drop_last() =~= items@.take(i as int));
        match read_entry(&items[i]) {
            Some(e) => {
                let ghost before = out@;
                out.push(e);
                assert(out@.map_values(|e: ManifestEntry| entry_view(e)) =~= before.map_values(
                    |e: ManifestEntry| entry_view(e),
                ).push(entry_view(e)));
            },
            None => {},
        }
        i += 1;
    }
    assert(items@.take(items@.len() as int) =~= items@);
    out
}

/// The handlers of one path, at most one per method.
pub struct MethodSet<H> {
    pub get: Option<H>,
    pub post: Option<H>,
    pub put: Option<H>,
    pub delete: Option<H>,
}

pub open spec fn no_methods<H>() -> MethodSet<H> {
    MethodSet { get: None, post: None, put: None, delete: None }
}

/// `m` with the handler of `method` set to `h`; the others kept.
pub open spec fn with_method<H>(m: MethodSet<H>, method: Method, h: H) -> MethodSet<H> {
    match method {
        Method::Get => MethodSet { get: Some(h), ..m },
        Method::Post => MethodSet { post: Some(h), ..m },
        Method::Put => MethodSet { put: Some(h), ..m },
        Method::Delete => MethodSet { delete: Some(h), ..m },
    }
}

impl<H> MethodSet<H> {
    pub open spec fn is_empty(self) -> bool {
        self.get is None && self.post is None && self.put is None && self.delete is None
    }
}

/// One leaf of the routing table: a path, the module folder that serves
/// it, and its handlers.
pub struct Route<H> {
    pub path: String,
    pub module: String,
    pub methods: MethodSet<H>,
}

/// Paths and their method sets; each path occurs once.
pub struct RouteTable<H> {
    pub routes: Vec<Route<H>>,
}

impl<H> RouteTable<H> {
    pub open spec fn wf(self) -> bool {
        forall|i: int, j: int|
            0 <= i < j < self.routes@.len() ==> (#[trigger] self.routes@[i]).path@
                != (#[trigger] self.routes@[j]).path@
    }

    pub open spec fn has_path(self, path: Seq<char>) -> bool {
        exists|i: int| 0 <= i < self.routes@.len() && (#[trigger] self.routes@[i]).path@ == path
    }

    pub open spec fn index_of(self, path: Seq<char>) -> int {
        choose|i: int| 0 <= i < self.routes@.len() && (#[trigger] self.routes@[i]).path@ == path
    }

    /// The method set served at `path`, if any.
    pub open spec fn methods_at(self, path: Seq<char>) -> Option<MethodSet<H>> {
        if self.has_path(path) {
            Some(self.routes@[self.index_of(path)].methods)
        } else {
            None
        }
    }

    /// The module owning the leaf at `path`.
    pub open spec fn module_at(self, path: Seq<char>) -> Seq<char> {
        self.routes@[self.index_of(path)].module@
    }

    pub fn new() -> (r: RouteTable<H>)
        ensures
            r.wf(),
            forall|p: Seq<char>| !r.has_path(p),
    {
        RouteTable { routes: Vec::new() }
    }

    fn find(&self, path: &str) -> (r: Option<usize>)
        requires
            self.wf(),
        ensures
            match r {
                Some(i) => i < self.routes@.len() && self.has_path(path@) && self.index_of(path@)
                    == i,
                None => !self.has_path(path@),
            },
    {
        let mut i: usize = 0;
        while i < self.routes.len()
            invariant
                self.wf(),
                i <= self.routes@.len(),
                forall|k: int| 0 <= k < i ==> (#[trigger] self.routes@[k]).path@ != path@,
            decreases self.routes@.len() - i,
        {
            if str_eq(self.routes[i].path.as_str(), path) {
                proof {
                    assert(self.has_path(path@));
                    let k = self.index_of(path@);
                    assert(self.routes@[k].path@ == path@);
                }
                return Some(i);
            }
            i += 1;
        }
        None
    }

    /// Serves `h` for `method` at `path`, owned by `module`. Another
    /// handler of the same method at that path is replaced; handlers of
    /// other methods stay.
    pub fn add(&mut self, path: &str, module: &str, method: Method, h: H)
        requires
            old(self).wf(),
        ensures
            final(self).wf(),
            final(self).methods_at(path@) == Some(
                with_method(
                    match old(self).methods_at(path@) {
                        Some(m) => m,
                        None => no_methods(),
                    },
                    method,
                    h,
                ),
            ),
            forall|p: Seq<char>| p != path@ ==> #[trigger] final(self).methods_at(p) == old(
                self,
            ).methods_at(p),
            forall|p: Seq<char>| #[trigger] final(self).has_path(p) <==> (old(self).has_path(p) || p == path@),
            final(self).module_at(path@) == module@,
            forall|p: Seq<char>| p != path@ && old(self).has_path(p) ==> #[trigger] final(self).module_at(p) == old(self).module_at(p),
    {
        let ghost old_self = *self;
        match self.find(path) {
            Some(i) => {
                let old_route = self.routes.remove(i);
                let Route { path: p, module: _, methods } = old_route;
                let methods = set_method(methods, method, h);
                let route = Route { path: p, module: string_from(module), methods };
                self.routes.insert(i, route);
                proof {
                    assert(self.routes@[i as int].path@ == path@);
                    assert forall|a: int, b: int| 0 <= a < b < self.routes@.len() implies (#[trigger] self.routes@[a]).path@ != (#[trigger] self.routes@[b]).path@ by {
                        assert(self.routes@[a].path@ == old_self.routes@[a].path@);
                        assert(self.routes@[b].path@ == old_self.routes@[b].path@);
                    }
                    assert forall|p: Seq<char>| #[trigger] self.has_path(p) <==> (old_self.has_path(p) || p == path@) by {
                        if old_self.has_path(p) {
                            let k = old_self.index_of(p);
                            assert(self.routes@[k].path@ == old_self.routes@[k].path@);
                        }
                        if self.has_path(p) {
                            let k = self.index_of(p);
                            assert(self.routes@[k].path@ == old_self.routes@[k].path@);
                        }
                    }
                    assert(self.index_of(path@) == i);
                    assert forall|p: Seq<char>| p != path@ implies #[trigger] self.methods_at(p) == old_self.methods_at(p) by {
                        if self.has_path(p) {
                            let k = self.index_of(p);
                            let k0 = old_self.index_of(p);
                            assert(self.routes@[k].path@ == old_self.routes@[k].path@);
                            assert(k != i);
                            assert(k == k0);
                        }
                    }
                    assert forall|p: Seq<char>| p != path@ && old_self.has_path(p) implies #[trigger] self.module_at(p) == old_self.module_at(p) by {
                        assert(self.has_path(p));
                        let k = self.index_of(p);
                        let k0 = old_self.index_of(p);
                        assert(self.routes@[k].path@ == old_self.routes@[k].path@);
                        assert(k != i);
                        assert(k == k0);
                    }
                }
            },
            None => {
                let route = Route {
                    path: string_from(path),
                    module: string_from(module),
                    methods: set_method(MethodSet { get: None, post: None, put: None, delete: None }, method, h),
                };
                self.routes.push(route);
                proof {
                    let n = old_self.routes@.len() as int;
                    assert(self.routes@[n].path@ == path@);
                    assert forall|a: int, b: int| 0 <= a < b < self.routes@.len() implies (#[trigger] self.routes@[a]).path@ != (#[trigger] self.routes@[b]).path@ by {
                        if b == n {
                            assert(!old_self.has_path(path@));
                            assert(old_self.routes@[a] == self.routes@[a]);
                        }
                    }
                    assert forall|p: Seq<char>| #[trigger] self.has_path(p) <==> (old_self.has_path(p) || p == path@) by {
                        if old_self.has_path(p) {
                            let k = old_self.index_of(p);
                            assert(self.routes@[k] == old_self.routes@[k]);
                        }
                        if self.has_path(p) && p != path@ {
                            let k = self.index_of(p);
                            assert(k != n);
                            assert(self.routes@[k] == old_self.routes@[k]);
                        }
                    }
                    assert(self.has_path(path@));
                    assert(self.index_of(path@) == n);
                    assert forall|p: Seq<char>| p != path@ implies #[trigger] self.methods_at(p) == old_self.methods_at(p) by {
                        if self.has_path(p) {
                            let k = self.index_of(p);
                            assert(k != n);
                            assert(self.routes@[k] == old_self.routes@[k]);
                            assert(old_self.has_path(p));
                            assert(old_self.index_of(p) == k);
                        }
                    }
                    assert forall|p: Seq<char>| p != path@ && old_self.has_path(p) implies #[trigger] self.module_at(p) == old_self.module_at(p) by {
                        assert(self.has_path(p));
                        let k = self.index_of(p);
                        assert(k != n);
                        assert(self.routes@[k] == old_self.routes@[k]);
                        assert(old_self.index_of(p) == k);
                    }
                }
            },
        }
    }
}

fn string_from(s: &str) -> (r: String)
    ensures
        r@ == s@,
{
    String::from_str(s)
}

fn set_method<H>(m: MethodSet<H>, method: Method, h: H) -> (r: MethodSet<H>)
    ensures
        r == with_method(m, method, h),
{
    let MethodSet { get, post, put, delete } = m;
    match method {
        Method::Get => MethodSet { get: Some(h), post, put, delete },
        Method::Post => MethodSet { get, post: Some(h), put, delete },
        Method::Put => MethodSet { get, post, put: Some(h), delete },
        Method::Delete => MethodSet { get, post, put, delete: Some(h) },
    }
}

/// Whether `path` is among the disabled routes, both normalized.
pub open spec fn route_disabled(disabled: Seq<String>, path: Seq<char>) -> bool {
    exists|i: int| 0 <= i < disabled.len() && norm((#[trigger] disabled[i])@) == norm(path)
}

pub fn is_route_disabled(disabled: &Vec<String>, path: &str) -> (r: bool)
    ensures
        r == route_disabled(disabled@, path@),
{
    let p = normalize_path(path);
    let mut i: usize = 0;
    while i < disabled.len()
        invariant
            i <= disabled@.len(),
            p@ == norm(path@),
            forall|k: int| 0 <= k < i ==> norm((#[trigger] disabled@[k])@) != norm(path@),
        decreases disabled@.len() - i,
    {
        let d = normalize_path(disabled[i].as_str());
        if str_eq(d.as_str(), p.as_str()) {
            return true;
        }
        i += 1;
    }
    false
}

/// The method set at `p` after the entries `entries`, in order, starting
/// from `start`: an entry with a resolved handler on a path that is not
/// disabled sets its method.
pub open spec fn apply_entries<H>(
    entries: Seq<(String, Method, Option<H>)>,
    disabled: Seq<String>,
    start: Option<MethodSet<H>>,
    p: Seq<char>,
) -> Option<MethodSet<H>>
    decreases entries.len(),
{
    if entries.len() == 0 {
        start
    } else {
        let prev = apply_entries(entries.drop_last(), disabled, start, p);
        let e = entries.last();
        if e.0@ == p && e.2 is Some && !route_disabled(disabled, p) {
            Some(
                with_method(
                    match prev {
                        Some(m) => m,
                        None => no_methods(),
                    },
                    e.1,
                    e.2->0,
                ),
            )
        } else {
            prev
        }
    }
}

/// Entries never change the method set of a disabled path.
pub proof fn lemma_disabled_untouched<H>(
    entries: Seq<(String, Method, Option<H>)>,
    disabled: Seq<String>,
    start: Option<MethodSet<H>>,
    p: Seq<char>,
)
    requires
        route_disabled(disabled, p),
    ensures
        apply_entries(entries, disabled, start, p) == start,
    decreases entries.len(),
{
    if entries.len() > 0 {
        lemma_disabled_untouched(entries.drop_last(), disabled, start, p);
    }
}

/// Adds the resolved entries of one library, in order, under `module`:
/// entries whose path is disabled, or whose handler did not resolve, are
/// left out.
pub fn add_library<H>(
    table: &mut RouteTable<H>,
    module: &str,
    entries: Vec<(String, Method, Option<H>)>,
    disabled_routes: &Vec<String>,
)
    requires
        old(table).wf(),
    ensures
        final(table).wf(),
        forall|p: Seq<char>| #[trigger] final(table).methods_at(p) == apply_entries(
            entries@,
            disabled_routes@,
            old(table).methods_at(p),
            p,
        ),
        forall|p: Seq<char>| #[trigger] final(table).has_path(p) && !old(table).has_path(p) ==> final(table).module_at(p) == module@,
{
    let mut entries = entries;
    let ghost all = entries@;
    let ghost start = *table;
    let ghost mut k: int = 0;
    assert(all.skip(0) =~= all);
    assert(all.take(0) =~= Seq::<(String, Method, Option<H>)>::empty());
    while entries.len() > 0
        invariant
            table.wf(),
            0 <= k <= all.len(),
            entries@ == all.skip(k),
            forall|p: Seq<char>| #[trigger] table.methods_at(p) == apply_entries(all.take(k), disabled_routes@, start.methods_at(p), p),
            forall|p: Seq<char>| #[trigger] table.has_path(p) && !start.has_path(p) ==> table.module_at(p) == module@,
        decreases entries@.len(),
    {
        let (path, method, handler) = entries.remove(0);
        assert(all[k] == all.skip(k)[0]);
        assert(all.take(k + 1).drop_last() =~= all.take(k));
        assert(all.take(k + 1).last() == all[k]);
        let ghost before = *table;
        match handler {
            Some(h) => {
                if !is_route_disabled(disabled_routes, path.as_str()) {
                    table.add(path.as_str(), module, method, h);
                    assert forall|p: Seq<char>| #[trigger] table.has_path(p) && !start.has_path(p) implies table.module_at(p) == module@ by {
                        if p != path@ {
                            assert(before.has_path(p));
                        }
                    }
                }
            },
            None => {},
        }
        assert forall|p: Seq<char>| #[trigger] table.methods_at(p) == apply_entries(all.take(k + 1), disabled_routes@, start.methods_at(p), p) by {
            assert(before.methods_at(p) == apply_entries(all.take(k), disabled_routes@, start.methods_at(p), p));
        }
        assert(entries@ =~= all.skip(k + 1));
        proof {
            k = k + 1;
        }
    }
    assert(all.take(all.len() as int) =~= all);
}

/// A library that declares `GET` and `POST` on one path that is not
/// disabled gets one leaf there, serving both of its handlers.
pub proof fn lemma_methods_coalesce<H>(path: String, get: H, post: H, disabled: Seq<String>)
    requires
        !route_disabled(disabled, path@),
    ensures
        apply_entries(
            seq![(path, Method::Get, Some(get)), (path, Method::Post, Some(post))],
            disabled,
            None,
            path@,
        ) == Some(MethodSet { get: Some(get), post: Some(post), put: None, delete: None }),
{
    let first = (path, Method::Get, Some(get));
    let one_entry = seq![first];
    let both = one_entry.push((path, Method::Post, Some(post)));
    assert(both =~= seq![(path, Method::Get, Some(get)), (path, Method::Post, Some(post))]);
    assert(both.drop_last() =~= one_entry);
    assert(one_entry.drop_last() =~= Seq::<(String, Method, Option<H>)>::empty());
    assert(apply_entries(one_entry.drop_last(), disabled, None, path@) is None);
    let one = apply_entries(one_entry, disabled, None, path@);
    assert(one == Some(with_method(no_methods::<H>(), Method::Get, get)));
    assert(apply_entries(both, disabled, None, path@) == Some(with_method(one->0, Method::Post, post)));
}

/// A library that declares one `GET` route on a path that is not disabled
/// gets a leaf there serving only that handler.
pub proof fn lemma_single_get_route<H>(path: String, get: H, disabled: Seq<String>)
    requires
        !route_disabled(disabled, path@),
    ensures
        apply_entries(seq![(path, Method::Get, Some(get))], disabled, None, path@) == Some(
            MethodSet { get: Some(get), post: None, put: None, delete: None },
        ),
{
    let one_entry = seq![(path, Method::Get, Some(get))];
    assert(one_entry.drop_last() =~= Seq::<(String, Method, Option<H>)>::empty());
    assert(apply_entries(one_entry.drop_last(), disabled, None, path@) is None);
}

/// The routes one library declared, with their handlers resolved.
pub struct LibraryRoutes<H> {
    /// The module folder the library belongs to.
    pub module: String,
    pub entries: Vec<(String, Method, Option<H>)>,
}

pub open spec fn module_disabled(disabled: Seq<String>, folder: Seq<char>) -> bool {
    exists|i: int| 0 <= i < disabled.len() && (#[trigger] disabled[i])@ == folder
}

/// The method set at `p` after loading `libs` in order: libraries of a
/// disabled module add nothing.
pub open spec fn loaded<H>(libs: Seq<LibraryRoutes<H>>, s: FeaturesSettings, p: Seq<char>) -> Option<MethodSet<H>>
    decreases libs.len(),
{
    if libs.len() == 0 {
        None
    } else {
        let prev = loaded(libs.drop_last(), s, p);
        let lib = libs.last();
        if module_disabled(s.disabled_modules@, lib.module@) {
            prev
        } else {
            apply_entries(lib.entries@, s.disabled_routes@, prev, p)
        }
    }
}

proof fn lemma_disabled_not_loaded<H>(libs: Seq<LibraryRoutes<H>>, s: FeaturesSettings, p: Seq<char>)
    requires
        route_disabled(s.disabled_routes@, p),
    ensures
        loaded(libs, s, p) is None,
    decreases libs.len(),
{
    if libs.len() > 0 {
        lemma_disabled_not_loaded(libs.drop_last(), s, p);
        lemma_disabled_untouched(libs.last().entries@, s.disabled_routes@, loaded(libs.drop_last(), s, p), p);
    }
}

/// The routing table of a set of libraries, in load order: each leaf holds
/// the handlers its path was given, later ones replacing earlier ones of the
/// same method; disabled modules and disabled routes contribute nothing.
pub fn build_route_table<H>(libraries: Vec<LibraryRoutes<H>>, s: &FeaturesSettings) -> (r: RouteTable<H>)
    ensures
        r.wf(),
        forall|p: Seq<char>| #[trigger] r.methods_at(p) == loaded(libraries@, *s, p),
        forall|p: Seq<char>| route_disabled(s.disabled_routes@, p) ==> !#[trigger] r.has_path(p),
{
    let mut table: RouteTable<H> = RouteTable::new();
    let mut libs = libraries;
    let ghost all = libs@;
    let ghost mut k: int = 0;
    assert(all.skip(0) =~= all);
    assert(all.take(0) =~= Seq::<LibraryRoutes<H>>::empty());
    while libs.len() > 0
        invariant
            table.wf(),
            0 <= k <= all.len(),
            libs@ == all.skip(k),
            forall|p: Seq<char>| #[trigger] table.methods_at(p) == loaded(all.take(k), *s, p),
        decreases libs@.len(),
    {
        let lib = libs.remove(0);
        assert(all[k] == lib);
        assert(all.take(k + 1).drop_last() =~= all.take(k));
        assert(all.take(k + 1).last() == all[k]);
        let LibraryRoutes { module, entries } = lib;
        if !vec_has(&s.disabled_modules, module.as_str()) {
            add_library(&mut table, module.as_str(), entries, &s.disabled_routes);
        }
        assert(libs@ =~= all.skip(k + 1));
        proof {
            k = k + 1;
        }
    }
    assert(all.take(all.len() as int) =~= all);
    proof {
        assert forall|p: Seq<char>| route_disabled(s.disabled_routes@, p) implies !#[trigger] table.has_path(p) by {
            lemma_disabled_not_loaded(all, *s, p);
            assert(table.methods_at(p) == loaded(all, *s, p));
        }
    }
    table
}

/// Whether a file extension marks a loadable library.
pub fn is_library_extension(ext: &str) -> (r: bool)
    ensures
        r == (ext@ == "so"@ || ext@ == "dll"@),
{
    str_eq(ext, "so") || str_eq(ext, "dll")
}

/// The folder the first entry of `names` maps `key` to.
pub open spec fn name_lookup(names: Seq<(String, String)>, key: Seq<char>) -> Option<Seq<char>>
    decreases names.len(),
{
    if names.len() == 0 {
        None
    } else if names[0].0@ == key {
        Some(names[0].1@)
    } else {
        name_lookup(names.drop_first(), key)
    }
}

fn lookup_name(names: &Vec<(String, String)>, key: &str) -> (r: Option<String>)
    ensures
        match name_lookup(names@, key@) {
            Some(f) => r is Some && r->0@ == f,
            None => r is None,
        },
{
    let mut i: usize = 0;
    assert(names@.skip(0) =~= names@);
    while i < names.len()
        invariant
            i <= names@.len(),
            name_lookup(names@, key@) == name_lookup(names@.skip(i as int), key@),
        decreases names@.len() - i,
    {
        assert(names@.skip(i as int).drop_first() =~= names@.skip(i + 1));
        if str_eq(names[i].0.as_str(), key) {
            assert(names@.skip(i as int)[0] == names@[i as int]);
            return Some(names[i].1.clone());
        }
        i += 1;
    }
    None
}

/// The module folder of a library file stem: the folder its name (or its
/// name without a leading `lib`) is known under, else the stem itself.
pub open spec fn folder_spec(names: Seq<(String, String)>, stem: Seq<char>) -> Seq<char> {
    match name_lookup(names, stem) {
        Some(f) => f,
        None => if starts_with(stem, "lib"@) {
            match name_lookup(names, stem.skip(3)) {
                Some(f) => f,
                None => stem,
            }
        } else {
            stem
        },
    }
}

/// Resolves the module folder of a library file stem through `names`, the
/// map from package and folder names to folders.
pub fn module_folder(stem: &str, names: &Vec<(String, String)>) -> (r: String)
    ensures
        r@ == folder_spec(names@, stem@),
{
    match lookup_name(names, stem) {
        Some(f) => f,
        None => {
            let sv = chars_of(stem);
            let lib: Vec<char> = vec!['l', 'i', 'b'];
            proof {
                reveal_strlit("lib");
            }
            assert(lib@ =~= "lib"@);
            if seq_starts_with(&sv, &lib) {
                let rest = string_of(&skip_chars(&sv, 3));
                match lookup_name(names, rest.as_str()) {
                    Some(f) => f,
                    None => string_of(&sv),
                }
            } else {
                string_of(&sv)
            }
        },
    }
}

/// The library file names a package may have been built under, most likely
/// first: by package name, then by folder name.
pub fn built_candidates_for(pkg_name: &str, dir_name: &str) -> (r: Vec<String>)
    ensures
        r@.len() == 6,
        r@[0]@ == "lib"@ + pkg_name@ + ".so"@,
        r@[1]@ == pkg_name@ + ".dll"@,
        r@[2]@ == "lib"@ + pkg_name@ + ".dll"@,
        r@[3]@ == "lib"@ + dir_name@ + ".so"@,
        r@[4]@ == dir_name@ + ".dll"@,
        r@[5]@ == "lib"@ + dir_name@ + ".dll"@,
{
    let mut out: Vec<String> = Vec::new();
    out.push(concat(concat("lib", pkg_name).as_str(), ".so"));
    out.push(concat(pkg_name, ".dll"));
    out.push(concat(concat("lib", pkg_name).as_str(), ".dll"));
    out.push(concat(concat("lib", dir_name).as_str(), ".so"));
    out.push(concat(dir_name, ".dll"));
    out.push(concat(concat("lib", dir_name).as_str(), ".dll"));
    out
}

/// Whether a file name mentions a feature name, ignoring ASCII case.
pub fn file_mentions_feature(file_name: &str, name: &str) -> (r: bool)
    ensures
        r == contains(ascii_lower(file_name@), ascii_lower(name@)),
{
    let f = chars_of(to_ascii_lowercase(file_name).as_str());
    let n = chars_of(to_ascii_lowercase(name).as_str());
    seq_contains(&f, &n)
}

/// A file name an editor or download leaves behind for a moment.
pub open spec fn transient_name(name: Seq<char>) -> bool {
    let l = ascii_lower(name);
    ends_with(l, ".tmp"@) || ends_with(l, ".swp"@) || ends_with(l, "~"@) || ends_with(l, ".crdownload"@)
}

pub fn is_transient_name(name: &str) -> (r: bool)
    ensures
        r == transient_name(name@),
{
    let l = chars_of(to_ascii_lowercase(name).as_str());
    seq_ends_with(&l, &chars_of(".tmp")) || seq_ends_with(&l, &chars_of(".swp"))
        || seq_ends_with(&l, &chars_of("~")) || seq_ends_with(&l, &chars_of(".crdownload"))
}

/// A file event is ignored when each path it names has a transient file
/// name; a path without a file name is never transient.
pub fn should_ignore_event(file_names: &Vec<Option<String>>) -> (r: bool)
    ensures
        r == forall|i: int| 0 <= i < file_names@.len() ==> match #[trigger] file_names@[i] {
            Some(n) => transient_name(n@),
            None => false,
        },
{
    let mut i: usize = 0;
    while i < file_names.len()
        invariant
            i <= file_names@.len(),
            forall|k: int| 0 <= k < i ==> match #[trigger] file_names@[k] {
                Some(n) => transient_name(n@),
                None => false,
            },
        decreases file_names@.len() - i,
    {
        let ok = match &file_names[i] {
            Some(n) => is_transient_name(n.as_str()),
            None => false,
        };
        if !ok {
            return false;
        }
        i += 1;
    }
    true
}

} // verus!
