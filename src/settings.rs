//! The administrative settings record, partial patches of it, and the
//! values the middleware reads from it.
use vstd::prelude::*;
use crate::json::{keys_differ, lemma_member_at, member, member_of, string_items, views, Json, JsonNumber};
use crate::text::{str_eq, vec_has};

verus! {

/// The persisted configuration of the host.
pub struct FeaturesSettings {
    pub rate_limit_enabled: bool,
    pub rate_limit_per_second: u32,
    pub waf_enabled: bool,
    pub oauth2_enabled: bool,
    pub cors_enabled: bool,
    pub admin_console_enabled: bool,
    pub disabled_modules: Vec<String>,
    pub disabled_routes: Vec<String>,
    pub disabled_features: Vec<String>,
    /// Per-route ceilings keyed by normalized path; the first entry for a
    /// path counts.
    pub route_rate_limits: Vec<(String, u32)>,
    /// Per-feature settings objects keyed by feature short name.
    pub feature_extras: Vec<(String, Json)>,
}

impl Default for FeaturesSettings {
    fn default() -> (r: FeaturesSettings)
        ensures
            !r.rate_limit_enabled,
            r.rate_limit_per_second == 1,
            !r.waf_enabled,
            !r.oauth2_enabled,
            !r.cors_enabled,
            r.admin_console_enabled,
            r.disabled_modules@.len() == 0,
            r.disabled_routes@.len() == 0,
            r.disabled_features@.len() == 0,
            r.route_rate_limits@.len() == 0,
            r.feature_extras@.len() == 0,
    {
        FeaturesSettings {
            rate_limit_enabled: false,
            rate_limit_per_second: 1,
            waf_enabled: false,
            oauth2_enabled: false,
            cors_enabled: false,
            admin_console_enabled: true,
            disabled_modules: Vec::new(),
            disabled_routes: Vec::new(),
            disabled_features: Vec::new(),
            route_rate_limits: Vec::new(),
            feature_extras: Vec::new(),
        }
    }
}

/// The fields an update names; `None` leaves a field as it is.
pub struct SettingsPatch {
    pub rate_limit_enabled: Option<bool>,
    pub rate_limit_per_second: Option<u32>,
    pub waf_enabled: Option<bool>,
    pub oauth2_enabled: Option<bool>,
    pub cors_enabled: Option<bool>,
    pub admin_console_enabled: Option<bool>,
    pub disabled_modules: Option<Vec<String>>,
    pub disabled_routes: Option<Vec<String>>,
    pub disabled_features: Option<Vec<String>>,
    pub route_rate_limits: Option<Vec<(String, u32)>>,
    pub feature_extras: Option<Vec<(String, Json)>>,
}

pub open spec fn pick<T>(p: Option<T>, old: T) -> T {
    match p {
        Some(v) => v,
        None => old,
    }
}

/// `s` with every field that `p` names replaced by the patch's value.
pub open spec fn merged(s: FeaturesSettings, p: SettingsPatch) -> FeaturesSettings {
    FeaturesSettings {
        rate_limit_enabled: pick(p.rate_limit_enabled, s.rate_limit_enabled),
        rate_limit_per_second: pick(p.rate_limit_per_second, s.rate_limit_per_second),
        waf_enabled: pick(p.waf_enabled, s.waf_enabled),
        oauth2_enabled: pick(p.oauth2_enabled, s.oauth2_enabled),
        cors_enabled: pick(p.cors_enabled, s.cors_enabled),
        admin_console_enabled: pick(p.admin_console_enabled, s.admin_console_enabled),
        disabled_modules: pick(p.disabled_modules, s.disabled_modules),
        disabled_routes: pick(p.disabled_routes, s.disabled_routes),
        disabled_features: pick(p.disabled_features, s.disabled_features),
        route_rate_limits: pick(p.route_rate_limits, s.route_rate_limits),
        feature_extras: pick(p.feature_extras, s.feature_extras),
    }
}

fn or_keep<T>(p: Option<T>, old: T) -> (r: T)
    ensures
        r == pick(p, old),
{
    match p {
        Some(v) => v,
        None => old,
    }
}

/// Applies `p` to `s`: the fields `p` names are overwritten, all others kept.
pub fn merge(s: FeaturesSettings, p: SettingsPatch) -> (r: FeaturesSettings)
    ensures
        r == merged(s, p),
{
    FeaturesSettings {
        rate_limit_enabled: or_keep(p.rate_limit_enabled, s.rate_limit_enabled),
        rate_limit_per_second: or_keep(p.rate_limit_per_second, s.rate_limit_per_second),
        waf_enabled: or_keep(p.waf_enabled, s.waf_enabled),
        oauth2_enabled: or_keep(p.oauth2_enabled, s.oauth2_enabled),
        cors_enabled: or_keep(p.cors_enabled, s.cors_enabled),
        admin_console_enabled: or_keep(p.admin_console_enabled, s.admin_console_enabled),
        disabled_modules: or_keep(p.disabled_modules, s.disabled_modules),
        disabled_routes: or_keep(p.disabled_routes, s.disabled_routes),
        disabled_features: or_keep(p.disabled_features, s.disabled_features),
        route_rate_limits: or_keep(p.route_rate_limits, s.route_rate_limits),
        feature_extras: or_keep(p.feature_extras, s.feature_extras),
    }
}

/// A patch keeps every field it does not name, and sets every field it names.
pub proof fn lemma_patch_fidelity(s: FeaturesSettings, p: SettingsPatch)
    ensures
        p.rate_limit_enabled is None ==> merged(s, p).rate_limit_enabled == s.rate_limit_enabled,
        p.rate_limit_per_second is None ==> merged(s, p).rate_limit_per_second
            == s.rate_limit_per_second,
        p.waf_enabled is None ==> merged(s, p).waf_enabled == s.waf_enabled,
        p.oauth2_enabled is None ==> merged(s, p).oauth2_enabled == s.oauth2_enabled,
        p.cors_enabled is None ==> merged(s, p).cors_enabled == s.cors_enabled,
        p.admin_console_enabled is None ==> merged(s, p).admin_console_enabled
            == s.admin_console_enabled,
        p.disabled_modules is None ==> merged(s, p).disabled_modules == s.disabled_modules,
        p.disabled_routes is None ==> merged(s, p).disabled_routes == s.disabled_routes,
        p.disabled_features is None ==> merged(s, p).disabled_features == s.disabled_features,
        p.route_rate_limits is None ==> merged(s, p).route_rate_limits == s.route_rate_limits,
        p.feature_extras is None ==> merged(s, p).feature_extras == s.feature_extras,
        p.rate_limit_enabled matches Some(v) ==> merged(s, p).rate_limit_enabled == v,
        p.rate_limit_per_second matches Some(v) ==> merged(s, p).rate_limit_per_second == v,
        p.waf_enabled matches Some(v) ==> merged(s, p).waf_enabled == v,
        p.oauth2_enabled matches Some(v) ==> merged(s, p).oauth2_enabled == v,
        p.cors_enabled matches Some(v) ==> merged(s, p).cors_enabled == v,
        p.admin_console_enabled matches Some(v) ==> merged(s, p).admin_console_enabled == v,
        p.disabled_modules matches Some(v) ==> merged(s, p).disabled_modules == v,
        p.disabled_routes matches Some(v) ==> merged(s, p).disabled_routes == v,
        p.disabled_features matches Some(v) ==> merged(s, p).disabled_features == v,
        p.route_rate_limits matches Some(v) ==> merged(s, p).route_rate_limits == v,
        p.feature_extras matches Some(v) ==> merged(s, p).feature_extras == v,
{
}

/// Applying the same patch twice gives what applying it once gives.
pub proof fn lemma_patch_idempotent(s: FeaturesSettings, p: SettingsPatch)
    ensures
        merged(merged(s, p), p) == merged(s, p),
{
}

/// `n` as a `u32`, with larger values held at `u32::MAX`.
pub open spec fn sat32(n: u64) -> u32 {
    if n > u32::MAX {
        u32::MAX
    } else {
        n as u32
    }
}

fn to_u32(n: u64) -> (r: u32)
    ensures
        r == sat32(n),
{
    if n > u32::MAX as u64 {
        u32::MAX
    } else {
        n as u32
    }
}

/// The requests-per-second default a value sets: a positive integer, held
/// at `u32::MAX`; anything else sets nothing.
pub open spec fn per_second(v: Option<Json>) -> Option<u32> {
    match v {
        Some(j) => match j.as_u64_spec() {
            Some(n) => if n >= 1 {
                Some(sat32(n))
            } else {
                None
            },
            None => None,
        },
        None => None,
    }
}

/// The members of `entries` whose value is a `u64`, each cut to 32 bits.
pub open spec fn number_members(entries: Seq<(String, Json)>) -> Seq<(Seq<char>, u32)>
    decreases entries.len(),
{
    if entries.len() == 0 {
        Seq::empty()
    } else {
        let head = number_members(entries.drop_last());
        match entries.last().1.as_u64_spec() {
            Some(n) => head.push((entries.last().0@, sat32(n))),
            None => head,
        }
    }
}

pub open spec fn limit_views(v: Seq<(String, u32)>) -> Seq<(Seq<char>, u32)> {
    v.map_values(|e: (String, u32)| (e.0@, e.1))
}

fn bool_field(body: &Json, key: &str) -> (r: Option<bool>)
    ensures
        r == (match body.get_spec(key@) {
            Some(Json::Bool(b)) => Some(b),
            _ => None,
        }),
{
    match body.get(key) {
        Some(v) => v.as_bool(),
        None => None,
    }
}

fn list_field(body: &Json, key: &str) -> (r: Option<Vec<String>>)
    ensures
        match body.get_spec(key@) {
            Some(Json::Array(items)) => r is Some && views(r->0@) == string_items(items@),
            _ => r is None,
        },
{
    match body.get(key) {
        Some(v) => match v {
            Json::Array(_) => Some(v.strings()),
            _ => None,
        },
        None => None,
    }
}

fn limits_field(body: &Json, key: &str) -> (r: Option<Vec<(String, u32)>>)
    ensures
        match body.get_spec(key@) {
            Some(Json::Object(entries)) => r is Some && limit_views(r->0@) == number_members(
                entries@,
            ),
            _ => r is None,
        },
{
    match body.get(key) {
        Some(Json::Object(entries)) => {
            let mut out: Vec<(String, u32)> = Vec::new();
            let mut i: usize = 0;
            while i < entries.len()
                invariant
                    i <= entries@.len(),
                    limit_views(out@) == number_members(entries@.take(i as int)),
                decreases entries@.len() - i,
            {
                assert(entries@.take(i + 1).drop_last() =~= entries@.take(i as int));
                match entries[i].1.as_u64() {
                    Some(n) => {
                        let k = entries[i].0.clone();
                        out.push((k, to_u32(n)));
                        assert(limit_views(out@) =~= limit_views(out@.drop_last()).push(
                            (entries@[i as int].0@, sat32(n)),
                        ));
                    },
                    None => {},
                }
                i += 1;
            }
            assert(entries@.take(entries@.len() as int) =~= entries@);
            Some(out)
        },
        _ => None,
    }
}

/// The patch a request body asks for: each recognized key whose value has
/// the right JSON type.
pub open spec fn patch_spec_matches(body: Json, p: SettingsPatch) -> bool {
    &&& p.rate_limit_enabled == (match body.get_spec("rate_limit_enabled"@) {
        Some(Json::Bool(b)) => Some(b),
        _ => None,
    })
    &&& p.waf_enabled == (match body.get_spec("waf_enabled"@) {
        Some(Json::Bool(b)) => Some(b),
        _ => None,
    })
    &&& p.oauth2_enabled == (match body.get_spec("oauth2_enabled"@) {
        Some(Json::Bool(b)) => Some(b),
        _ => None,
    })
    &&& p.cors_enabled == (match body.get_spec("cors_enabled"@) {
        Some(Json::Bool(b)) => Some(b),
        _ => None,
    })
    &&& p.admin_console_enabled == (match body.get_spec("admin_console_enabled"@) {
        Some(Json::Bool(b)) => Some(b),
        _ => None,
    })
    &&& p.rate_limit_per_second == per_second(body.get_spec("rate_limit_per_second"@))
    &&& list_matches(body.get_spec("disabled_modules"@), p.disabled_modules)
    &&& list_matches(body.get_spec("disabled_routes"@), p.disabled_routes)
    &&& list_matches(body.get_spec("disabled_features"@), p.disabled_features)
    &&& match body.get_spec("route_rate_limits"@) {
        Some(Json::Object(entries)) => p.route_rate_limits is Some && limit_views(
            p.route_rate_limits->0@,
        ) == number_members(entries@),
        _ => p.route_rate_limits is None,
    }
    &&& match body.get_spec("feature_extras"@) {
        Some(Json::Object(entries)) => p.feature_extras == Some(entries),
        _ => p.feature_extras is None,
    }
}

pub open spec fn list_matches(v: Option<Json>, r: Option<Vec<String>>) -> bool {
    match v {
        Some(Json::Array(items)) => r is Some && views(r->0@) == string_items(items@),
        _ => r is None,
    }
}

/// Moves out the members of the object member `key` of `body`.
fn take_object_member(body: Json, key: &str) -> (r: Option<Vec<(String, Json)>>)
    ensures
        match body.get_spec(key@) {
            Some(Json::Object(e)) => r == Some(e),
            _ => r is None,
        },
{
    let ghost b = body;
    match body {
        Json::Object(mut entries) => {
            let mut i: usize = 0;
            assert(entries@.skip(0) =~= entries@);
            while i < entries.len()
                invariant
                    i <= entries@.len(),
                    b == Json::Object(entries),
                    b == body,
                    member(entries@, key@) == member(entries@.skip(i as int), key@),
                decreases entries@.len() - i,
            {
                assert(entries@.skip(i as int).drop_first() =~= entries@.skip(i + 1));
                if str_eq(entries[i].0.as_str(), key) {
                    let ghost before = entries@;
                    assert(entries@.skip(i as int)[0] == entries@[i as int]);
                    assert(member(before, key@) == Some(before[i as int].1));
                    let (_, v) = entries.remove(i);
                    assert(v == before[i as int].1);
                    return match v {
                        Json::Object(inner) => Some(inner),
                        _ => None,
                    };
                }
                i += 1;
            }
            None
        },
        _ => None,
    }
}

impl SettingsPatch {
    /// The patch that a settings update body asks for.
    pub fn from_json(body: Json) -> (r: SettingsPatch)
        ensures
            patch_spec_matches(body, r),
    {
        let rate_limit_per_second = match body.get("rate_limit_per_second") {
            Some(v) => match v.as_u64() {
                Some(n) => if n >= 1 {
                    Some(to_u32(n))
                } else {
                    None
                },
                None => None,
            },
            None => None,
        };
        let rate_limit_enabled = bool_field(&body, "rate_limit_enabled");
        let waf_enabled = bool_field(&body, "waf_enabled");
        let oauth2_enabled = bool_field(&body, "oauth2_enabled");
        let cors_enabled = bool_field(&body, "cors_enabled");
        let admin_console_enabled = bool_field(&body, "admin_console_enabled");
        let disabled_modules = list_field(&body, "disabled_modules");
        let disabled_routes = list_field(&body, "disabled_routes");
        let disabled_features = list_field(&body, "disabled_features");
        let route_rate_limits = limits_field(&body, "route_rate_limits");
        let feature_extras = take_object_member(body, "feature_extras");
        SettingsPatch {
            rate_limit_enabled,
            rate_limit_per_second,
            waf_enabled,
            oauth2_enabled,
            cors_enabled,
            admin_console_enabled,
            disabled_modules,
            disabled_routes,
            disabled_features,
            route_rate_limits,
            feature_extras,
        }
    }
}

/// The string list stored at `feature_extras[feature][key]`.
pub open spec fn extra_list(extras: Seq<(String, Json)>, feature: Seq<char>, key: Seq<char>) -> Seq<
    Seq<char>,
> {
    match member(extras, feature) {
        Some(Json::Object(o)) => match member(o@, key) {
            Some(v) => v.strings_spec(),
            None => Seq::empty(),
        },
        _ => Seq::empty(),
    }
}

/// The ceiling of the first entry for `path`.
pub open spec fn legacy_limit(v: Seq<(String, u32)>, path: Seq<char>) -> Option<u32>
    decreases v.len(),
{
    if v.len() == 0 {
        None
    } else if v[0].0@ == path {
        Some(v[0].1)
    } else {
        legacy_limit(v.drop_first(), path)
    }
}

pub open spec fn u32_of(v: Option<Json>) -> Option<u32> {
    match v {
        Some(j) => match j.as_u64_spec() {
            Some(n) => Some(sat32(n)),
            None => None,
        },
        None => None,
    }
}

/// The request ceiling for a normalized path: the feature's per-route
/// limit, else the legacy per-route limit, else the feature's `rps`, else
/// the global default.
pub open spec fn effective_limit(s: FeaturesSettings, path: Seq<char>) -> u32 {
    let legacy = legacy_limit(s.route_rate_limits@, path);
    match member(s.feature_extras@, "rate_limit"@) {
        Some(Json::Object(o)) => {
            let per_route = match member(o@, "route_limits"@) {
                Some(Json::Object(m)) => u32_of(member(m@, path)),
                _ => None,
            };
            let per_route = if per_route is Some {
                per_route
            } else {
                legacy
            };
            let global = match u32_of(member(o@, "rps"@)) {
                Some(n) => n,
                None => s.rate_limit_per_second,
            };
            pick(per_route, global)
        },
        _ => pick(legacy, s.rate_limit_per_second),
    }
}

fn u32_value(v: Option<&Json>) -> (r: Option<u32>)
    ensures
        match v {
            Some(j) => r == u32_of(Some(*j)),
            None => r is None,
        },
{
    match v {
        Some(j) => match j.as_u64() {
            Some(n) => Some(to_u32(n)),
            None => None,
        },
        None => None,
    }
}

impl FeaturesSettings {
    pub open spec fn disabled_feature(self, name: Seq<char>) -> bool {
        exists|i: int| 0 <= i < self.disabled_features@.len() && (#[trigger] self.disabled_features@[i])@ == name
    }

    /// The string list stored at `feature_extras[feature][key]`.
    pub fn extra_strings(&self, feature: &str, key: &str) -> (r: Vec<String>)
        ensures
            views(r@) == extra_list(self.feature_extras@, feature@, key@),
    {
        match member_of(&self.feature_extras, feature) {
            Some(Json::Object(o)) => match member_of(o, key) {
                Some(v) => v.strings(),
                None => Vec::new(),
            },
            _ => Vec::new(),
        }
    }

    /// The request filter's configured fragments.
    pub fn waf_patterns(&self) -> (r: Vec<String>)
        ensures
            views(r@) == extra_list(self.feature_extras@, "waf"@, "patterns"@),
    {
        self.extra_strings("waf", "patterns")
    }

    /// The route patterns that need a bearer token.
    pub fn protected_routes(&self) -> (r: Vec<String>)
        ensures
            views(r@) == extra_list(self.feature_extras@, "oauth2"@, "protected_routes"@),
    {
        self.extra_strings("oauth2", "protected_routes")
    }

    /// The ceiling of the first legacy per-route entry for `path`.
    pub fn legacy_route_limit(&self, path: &str) -> (r: Option<u32>)
        ensures
            r == legacy_limit(self.route_rate_limits@, path@),
    {
        let v = &self.route_rate_limits;
        let mut i: usize = 0;
        assert(v@.skip(0) =~= v@);
        while i < v.len()
            invariant
                i <= v@.len(),
                v == &self.route_rate_limits,
                legacy_limit(v@, path@) == legacy_limit(v@.skip(i as int), path@),
            decreases v@.len() - i,
        {
            assert(v@.skip(i as int).drop_first() =~= v@.skip(i + 1));
            if str_eq(v[i].0.as_str(), path) {
                assert(v@.skip(i as int)[0] == v@[i as int]);
                return Some(v[i].1);
            }
            i += 1;
        }
        None
    }

    /// The request ceiling that applies to the normalized path `path`.
    pub fn route_limit(&self, path: &str) -> (r: u32)
        ensures
            r == effective_limit(*self, path@),
    {
        let legacy = self.legacy_route_limit(path);
        match member_of(&self.feature_extras, "rate_limit") {
            Some(Json::Object(o)) => {
                let per_route = match member_of(o, "route_limits") {
                    Some(Json::Object(m)) => u32_value(member_of(m, path)),
                    _ => None,
                };
                let per_route = match per_route {
                    Some(n) => Some(n),
                    None => legacy,
                };
                let global = match u32_value(member_of(o, "rps")) {
                    Some(n) => n,
                    None => self.rate_limit_per_second,
                };
                match per_route {
                    Some(n) => n,
                    None => global,
                }
            },
            _ => match legacy {
                Some(n) => n,
                None => self.rate_limit_per_second,
            },
        }
    }

    /// Whether `name` is listed among the disabled features.
    pub fn is_feature_disabled(&self, name: &str) -> (r: bool)
        ensures
            r == self.disabled_feature(name@),
    {
        vec_has(&self.disabled_features, name)
    }
}

/// The settings record as plain values.
pub struct SettingsView {
    pub rate_limit_enabled: bool,
    pub rate_limit_per_second: u32,
    pub waf_enabled: bool,
    pub oauth2_enabled: bool,
    pub cors_enabled: bool,
    pub admin_console_enabled: bool,
    pub disabled_modules: Seq<Seq<char>>,
    pub disabled_routes: Seq<Seq<char>>,
    pub disabled_features: Seq<Seq<char>>,
    pub route_rate_limits: Seq<(Seq<char>, u32)>,
    pub feature_extras: Seq<(String, Json)>,
}

pub open spec fn settings_view(s: FeaturesSettings) -> SettingsView {
    SettingsView {
        rate_limit_enabled: s.rate_limit_enabled,
        rate_limit_per_second: s.rate_limit_per_second,
        waf_enabled: s.waf_enabled,
        oauth2_enabled: s.oauth2_enabled,
        cors_enabled: s.cors_enabled,
        admin_console_enabled: s.admin_console_enabled,
        disabled_modules: views(s.disabled_modules@),
        disabled_routes: views(s.disabled_routes@),
        disabled_features: views(s.disabled_features@),
        route_rate_limits: limit_views(s.route_rate_limits@),
        feature_extras: s.feature_extras@,
    }
}

pub open spec fn bool_or(j: Json, key: Seq<char>, default: bool) -> bool {
    match j.get_spec(key) {
        Some(Json::Bool(b)) => b,
        _ => default,
    }
}

pub open spec fn list_or_empty(j: Json, key: Seq<char>) -> Seq<Seq<char>> {
    match j.get_spec(key) {
        Some(Json::Array(items)) => string_items(items@),
        _ => Seq::empty(),
    }
}

pub open spec fn is_u32_number(v: Json) -> bool {
    match v.as_u64_spec() {
        Some(n) => n <= u32::MAX,
        None => false,
    }
}

pub open spec fn all_strings(items: Seq<Json>) -> bool {
    forall|i: int| 0 <= i < items.len() ==> (#[trigger] items[i]) is Str
}

pub open spec fn all_u32(entries: Seq<(String, Json)>) -> bool {
    forall|i: int| 0 <= i < entries.len() ==> is_u32_number((#[trigger] entries[i]).1)
}

pub open spec fn typed_bool(j: Json, key: Seq<char>) -> bool {
    match j.get_spec(key) {
        None => true,
        Some(Json::Bool(_)) => true,
        _ => false,
    }
}

pub open spec fn typed_u32(j: Json, key: Seq<char>) -> bool {
    match j.get_spec(key) {
        None => true,
        Some(v) => is_u32_number(v),
    }
}

pub open spec fn typed_list(j: Json, key: Seq<char>) -> bool {
    match j.get_spec(key) {
        None => true,
        Some(Json::Array(items)) => all_strings(items@),
        _ => false,
    }
}

pub open spec fn typed_limits(j: Json, key: Seq<char>) -> bool {
    match j.get_spec(key) {
        None => true,
        Some(Json::Object(e)) => all_u32(e@),
        _ => false,
    }
}

pub open spec fn typed_object(j: Json, key: Seq<char>) -> bool {
    match j.get_spec(key) {
        None => true,
        Some(Json::Object(_)) => true,
        _ => false,
    }
}

/// Every recognized member that is present holds a value of its type:
/// booleans, a `u32` number, lists of strings, an object of `u32` numbers
/// and an object of feature settings.
pub open spec fn well_typed(j: Json) -> bool {
    &&& typed_bool(j, "rate_limit_enabled"@)
    &&& typed_u32(j, "rate_limit_per_second"@)
    &&& typed_bool(j, "waf_enabled"@)
    &&& typed_bool(j, "oauth2_enabled"@)
    &&& typed_bool(j, "cors_enabled"@)
    &&& typed_bool(j, "admin_console_enabled"@)
    &&& typed_list(j, "disabled_modules"@)
    &&& typed_list(j, "disabled_routes"@)
    &&& typed_list(j, "disabled_features"@)
    &&& typed_limits(j, "route_rate_limits"@)
    &&& typed_object(j, "feature_extras"@)
}

/// The record a stored JSON document loads as: the defaults when a
/// recognized member holds a value of the wrong type; else each recognized
/// member, and the default for every absent one.
pub open spec fn loaded_view(j: Json) -> SettingsView {
    if well_typed(j) {
        fields_view(j)
    } else {
        fields_view(Json::Null)
    }
}

/// Each recognized member of the right type, and the default for every
/// other field.
pub open spec fn fields_view(j: Json) -> SettingsView {
    SettingsView {
        rate_limit_enabled: bool_or(j, "rate_limit_enabled"@, false),
        rate_limit_per_second: match per_second(j.get_spec("rate_limit_per_second"@)) {
            Some(n) => n,
            None => 1,
        },
        waf_enabled: bool_or(j, "waf_enabled"@, false),
        oauth2_enabled: bool_or(j, "oauth2_enabled"@, false),
        cors_enabled: bool_or(j, "cors_enabled"@, false),
        admin_console_enabled: bool_or(j, "admin_console_enabled"@, true),
        disabled_modules: list_or_empty(j, "disabled_modules"@),
        disabled_routes: list_or_empty(j, "disabled_routes"@),
        disabled_features: list_or_empty(j, "disabled_features"@),
        route_rate_limits: match j.get_spec("route_rate_limits"@) {
            Some(Json::Object(e)) => number_members(e@),
            _ => Seq::empty(),
        },
        feature_extras: match j.get_spec("feature_extras"@) {
            Some(Json::Object(e)) => e@,
            _ => Seq::empty(),
        },
    }
}

fn bool_ok(j: &Json, key: &str) -> (r: bool)
    ensures
        r == typed_bool(*j, key@),
{
    match j.get(key) {
        None => true,
        Some(Json::Bool(_)) => true,
        _ => false,
    }
}

fn u32_ok(v: &Json) -> (r: bool)
    ensures
        r == is_u32_number(*v),
{
    match v.as_u64() {
        Some(n) => n <= u32::MAX as u64,
        None => false,
    }
}

fn list_ok(j: &Json, key: &str) -> (r: bool)
    ensures
        r == typed_list(*j, key@),
{
    match j.get(key) {
        None => true,
        Some(Json::Array(items)) => {
            let mut i: usize = 0;
            while i < items.len()
                invariant
                    i <= items@.len(),
                    j.get_spec(key@) == Some(Json::Array(*items)),
                    forall|k: int| 0 <= k < i ==> (#[trigger] items@[k]) is Str,
                decreases items@.len() - i,
            {
                match &items[i] {
                    Json::Str(_) => {},
                    _ => return false,
                }
                i += 1;
            }
            true
        },
        _ => false,
    }
}

fn limits_ok(j: &Json, key: &str) -> (r: bool)
    ensures
        r == typed_limits(*j, key@),
{
    match j.get(key) {
        None => true,
        Some(Json::Object(e)) => {
            let mut i: usize = 0;
            while i < e.len()
                invariant
                    i <= e@.len(),
                    j.get_spec(key@) == Some(Json::Object(*e)),
                    forall|k: int| 0 <= k < i ==> is_u32_number((#[trigger] e@[k]).1),
                decreases e@.len() - i,
            {
                if !u32_ok(&e[i].1) {
                    return false;
                }
                i += 1;
            }
            true
        },
        _ => false,
    }
}

fn object_ok(j: &Json, key: &str) -> (r: bool)
    ensures
        r == typed_object(*j, key@),
{
    match j.get(key) {
        None => true,
        Some(Json::Object(_)) => true,
        _ => false,
    }
}

/// Whether every recognized member that is present has its type.
pub fn is_well_typed(j: &Json) -> (r: bool)
    ensures
        r == well_typed(*j),
{
    let per_second_ok = match j.get("rate_limit_per_second") {
        None => true,
        Some(v) => u32_ok(v),
    };
    bool_ok(j, "rate_limit_enabled") && per_second_ok && bool_ok(j, "waf_enabled") && bool_ok(
        j,
        "oauth2_enabled",
    ) && bool_ok(j, "cors_enabled") && bool_ok(j, "admin_console_enabled") && list_ok(
        j,
        "disabled_modules",
    ) && list_ok(j, "disabled_routes") && list_ok(j, "disabled_features") && limits_ok(
        j,
        "route_rate_limits",
    ) && object_ok(j, "feature_extras")
}

/// Loads a stored settings document; a document with a recognized member
/// of the wrong type loads as the defaults.
pub fn settings_from_json(j: Json) -> (r: FeaturesSettings)
    ensures
        settings_view(r) == loaded_view(j),
        !well_typed(j) ==> settings_view(r) == loaded_view(Json::Null),
{
    let d = FeaturesSettings::default();
    proof {
        assert(views(d.disabled_modules@) =~= Seq::empty());
        assert(views(d.disabled_routes@) =~= Seq::empty());
        assert(views(d.disabled_features@) =~= Seq::empty());
        assert(limit_views(d.route_rate_limits@) =~= Seq::empty());
        assert(d.feature_extras@ =~= Seq::empty());
    }
    let ghost j0 = j;
    assert(Json::Null.get_spec("feature_extras"@) is None);
    assert(well_typed(Json::Null));
    if !is_well_typed(&j) {
        proof {
            let a = settings_view(d);
            let b = loaded_view(Json::Null);
            assert(a.feature_extras =~= b.feature_extras);
            assert(a.route_rate_limits =~= b.route_rate_limits);
            assert(a.disabled_modules =~= b.disabled_modules);
            assert(a.disabled_routes =~= b.disabled_routes);
            assert(a.disabled_features =~= b.disabled_features);
        }
        return d;
    }
    let p = SettingsPatch::from_json(j);
    let r = merge(d, p);
    proof {
        let a = settings_view(r);
        let b = loaded_view(j0);
        assert(a.feature_extras =~= b.feature_extras);
        assert(a.route_rate_limits =~= b.route_rate_limits);
        assert(a.disabled_modules =~= b.disabled_modules);
        assert(a.disabled_routes =~= b.disabled_routes);
        assert(a.disabled_features =~= b.disabled_features);
    }
    r
}

fn string_array(v: Vec<String>) -> (r: Json)
    ensures
        r matches Json::Array(items) && string_items(items@) == views(v@) && all_strings(items@),
{
    let mut items: Vec<Json> = Vec::new();
    let mut i: usize = 0;
    while i < v.len()
        invariant
            i <= v@.len(),
            string_items(items@) == views(v@.take(i as int)),
            all_strings(items@),
            items@.len() == i,
        decreases v@.len() - i,
    {
        let ghost before = items@;
        items.push(Json::Str(v[i].clone()));
        assert(items@.drop_last() =~= before);
        assert(views(v@.take(i + 1)) =~= views(v@.take(i as int)).push(v@[i as int]@));
        i += 1;
    }
    assert(v@.take(v@.len() as int) =~= v@);
    Json::Array(items)
}

fn limits_object(v: Vec<(String, u32)>) -> (r: Json)
    ensures
        r matches Json::Object(entries) && number_members(entries@) == limit_views(v@) && all_u32(
            entries@,
        ),
{
    let mut entries: Vec<(String, Json)> = Vec::new();
    let mut i: usize = 0;
    while i < v.len()
        invariant
            i <= v@.len(),
            number_members(entries@) == limit_views(v@.take(i as int)),
            all_u32(entries@),
        decreases v@.len() - i,
    {
        let ghost before = entries@;
        let n = v[i].1;
        entries.push((v[i].0.clone(), Json::Number(JsonNumber::Unsigned(n as u64))));
        assert(entries@.drop_last() =~= before);
        assert(sat32(n as u64) == n);
        assert(limit_views(v@.take(i + 1)) =~= limit_views(v@.take(i as int)).push((v@[i as int].0@, n)));
        i += 1;
    }
    assert(v@.take(v@.len() as int) =~= v@);
    Json::Object(entries)
}

/// A record as it reads back once stored: a zero requests-per-second
/// default is read as 1.
pub open spec fn stored_view(s: FeaturesSettings) -> SettingsView {
    SettingsView {
        rate_limit_per_second: if s.rate_limit_per_second >= 1 {
            s.rate_limit_per_second
        } else {
            1
        },
        ..settings_view(s)
    }
}

/// The JSON document a settings record is stored as; loading it gives the
/// record back, with a zero requests-per-second default read as 1.
pub fn settings_to_json(s: FeaturesSettings) -> (r: Json)
    ensures
        loaded_view(r) == stored_view(s),
        s.rate_limit_per_second >= 1 ==> loaded_view(r) == settings_view(s),
{
    let ghost s0 = s;
    let FeaturesSettings {
        rate_limit_enabled,
        rate_limit_per_second,
        waf_enabled,
        oauth2_enabled,
        cors_enabled,
        admin_console_enabled,
        disabled_modules,
        disabled_routes,
        disabled_features,
        route_rate_limits,
        feature_extras,
    } = s;
    let modules = string_array(disabled_modules);
    let routes = string_array(disabled_routes);
    let features = string_array(disabled_features);
    let limits = limits_object(route_rate_limits);
    let entries: Vec<(String, Json)> = vec![
        (String::from_str("rate_limit_enabled"), Json::Bool(rate_limit_enabled)),
        (String::from_str("rate_limit_per_second"), Json::Number(JsonNumber::Unsigned(rate_limit_per_second as u64))),
        (String::from_str("waf_enabled"), Json::Bool(waf_enabled)),
        (String::from_str("oauth2_enabled"), Json::Bool(oauth2_enabled)),
        (String::from_str("cors_enabled"), Json::Bool(cors_enabled)),
        (String::from_str("admin_console_enabled"), Json::Bool(admin_console_enabled)),
        (String::from_str("disabled_modules"), modules),
        (String::from_str("disabled_routes"), routes),
        (String::from_str("disabled_features"), features),
        (String::from_str("route_rate_limits"), limits),
        (String::from_str("feature_extras"), Json::Object(feature_extras)),
    ];
    proof {
        reveal_strlit("rate_limit_enabled");
        reveal_strlit("rate_limit_per_second");
        reveal_strlit("waf_enabled");
        reveal_strlit("oauth2_enabled");
        reveal_strlit("cors_enabled");
        reveal_strlit("admin_console_enabled");
        reveal_strlit("disabled_modules");
        reveal_strlit("disabled_routes");
        reveal_strlit("disabled_features");
        reveal_strlit("route_rate_limits");
        reveal_strlit("feature_extras");
        reveal_with_fuel(keys_differ, 12);
        let e = entries@;
        assert(e[0].0@ == "rate_limit_enabled"@);
        assert(e[1].0@ == "rate_limit_per_second"@);
        assert(e[2].0@ == "waf_enabled"@);
        assert(e[3].0@ == "oauth2_enabled"@);
        assert(e[4].0@ == "cors_enabled"@);
        assert(e[5].0@ == "admin_console_enabled"@);
        assert(e[6].0@ == "disabled_modules"@);
        assert(e[7].0@ == "disabled_routes"@);
        assert(e[8].0@ == "disabled_features"@);
        assert(e[9].0@ == "route_rate_limits"@);
        assert(e[10].0@ == "feature_extras"@);
        assert("rate_limit_enabled"@ != "rate_limit_per_second"@);
        assert("rate_limit_enabled"@ != "waf_enabled"@);
        assert("rate_limit_per_second"@ != "waf_enabled"@);
        assert("rate_limit_enabled"@ != "oauth2_enabled"@);
        assert("rate_limit_per_second"@ != "oauth2_enabled"@);
        assert("waf_enabled"@ != "oauth2_enabled"@);
        assert("rate_limit_enabled"@ != "cors_enabled"@);
        assert("rate_limit_per_second"@ != "cors_enabled"@);
        assert("waf_enabled"@ != "cors_enabled"@);
        assert("oauth2_enabled"@ != "cors_enabled"@);
        assert("rate_limit_enabled"@ != "admin_console_enabled"@);
        assert("rate_limit_per_second"@[0] != "admin_console_enabled"@[0]);
        assert("rate_limit_per_second"@ != "admin_console_enabled"@);
        assert("waf_enabled"@ != "admin_console_enabled"@);
        assert("oauth2_enabled"@ != "admin_console_enabled"@);
        assert("cors_enabled"@ != "admin_console_enabled"@);
        assert("rate_limit_enabled"@ != "disabled_modules"@);
        assert("rate_limit_per_second"@ != "disabled_modules"@);
        assert("waf_enabled"@ != "disabled_modules"@);
        assert("oauth2_enabled"@ != "disabled_modules"@);
        assert("cors_enabled"@ != "disabled_modules"@);
        assert("admin_console_enabled"@ != "disabled_modules"@);
        assert("rate_limit_enabled"@ != "disabled_routes"@);
        assert("rate_limit_per_second"@ != "disabled_routes"@);
        assert("waf_enabled"@ != "disabled_routes"@);
        assert("oauth2_enabled"@ != "disabled_routes"@);
        assert("cors_enabled"@ != "disabled_routes"@);
        assert("admin_console_enabled"@ != "disabled_routes"@);
        assert("disabled_modules"@ != "disabled_routes"@);
        assert("rate_limit_enabled"@ != "disabled_features"@);
        assert("rate_limit_per_second"@ != "disabled_features"@);
        assert("waf_enabled"@ != "disabled_features"@);
        assert("oauth2_enabled"@ != "disabled_features"@);
        assert("cors_enabled"@ != "disabled_features"@);
        assert("admin_console_enabled"@ != "disabled_features"@);
        assert("disabled_modules"@ != "disabled_features"@);
        assert("disabled_routes"@ != "disabled_features"@);
        assert("rate_limit_enabled"@ != "route_rate_limits"@);
        assert("rate_limit_per_second"@ != "route_rate_limits"@);
        assert("waf_enabled"@ != "route_rate_limits"@);
        assert("oauth2_enabled"@ != "route_rate_limits"@);
        assert("cors_enabled"@ != "route_rate_limits"@);
        assert("admin_console_enabled"@ != "route_rate_limits"@);
        assert("disabled_modules"@ != "route_rate_limits"@);
        assert("disabled_routes"@ != "route_rate_limits"@);
        assert("disabled_features"@[0] != "route_rate_limits"@[0]);
        assert("disabled_features"@ != "route_rate_limits"@);
        assert("rate_limit_enabled"@ != "feature_extras"@);
        assert("rate_limit_per_second"@ != "feature_extras"@);
        assert("waf_enabled"@ != "feature_extras"@);
        assert("oauth2_enabled"@[0] != "feature_extras"@[0]);
        assert("oauth2_enabled"@ != "feature_extras"@);
        assert("cors_enabled"@ != "feature_extras"@);
        assert("admin_console_enabled"@ != "feature_extras"@);
        assert("disabled_modules"@ != "feature_extras"@);
        assert("disabled_routes"@ != "feature_extras"@);
        assert("disabled_features"@ != "feature_extras"@);
        assert("route_rate_limits"@ != "feature_extras"@);
        lemma_member_at(e, 0, "rate_limit_enabled"@);
        lemma_member_at(e, 1, "rate_limit_per_second"@);
        lemma_member_at(e, 2, "waf_enabled"@);
        lemma_member_at(e, 3, "oauth2_enabled"@);
        lemma_member_at(e, 4, "cors_enabled"@);
        lemma_member_at(e, 5, "admin_console_enabled"@);
        lemma_member_at(e, 6, "disabled_modules"@);
        lemma_member_at(e, 7, "disabled_routes"@);
        lemma_member_at(e, 8, "disabled_features"@);
        lemma_member_at(e, 9, "route_rate_limits"@);
        lemma_member_at(e, 10, "feature_extras"@);
        assert(sat32(rate_limit_per_second as u64) == rate_limit_per_second);
        let a = loaded_view(Json::Object(entries));
        let b = settings_view(s0);
        assert(a.feature_extras =~= b.feature_extras);
        assert(a.rate_limit_per_second == if rate_limit_per_second >= 1 { rate_limit_per_second } else { 1 });
    }
    Json::Object(entries)
}

/// Saving `merged(s, p)` and loading what was stored gives `merged(s, p)`
/// back, so every field `p` does not name still has its value in `s`.
pub proof fn lemma_save_load_fidelity(
    s: FeaturesSettings,
    p: SettingsPatch,
    stored: Json,
    loaded: FeaturesSettings,
)
    requires
        loaded_view(stored) == settings_view(merged(s, p)),
        settings_view(loaded) == loaded_view(stored),
    ensures
        settings_view(loaded) == settings_view(merged(s, p)),
        p.rate_limit_enabled is None ==> loaded.rate_limit_enabled == s.rate_limit_enabled,
        p.rate_limit_per_second is None ==> loaded.rate_limit_per_second == s.rate_limit_per_second,
        p.waf_enabled is None ==> loaded.waf_enabled == s.waf_enabled,
        p.oauth2_enabled is None ==> loaded.oauth2_enabled == s.oauth2_enabled,
        p.cors_enabled is None ==> loaded.cors_enabled == s.cors_enabled,
        p.admin_console_enabled is None ==> loaded.admin_console_enabled == s.admin_console_enabled,
        p.disabled_modules is None ==> views(loaded.disabled_modules@) == views(s.disabled_modules@),
        p.disabled_routes is None ==> views(loaded.disabled_routes@) == views(s.disabled_routes@),
        p.disabled_features is None ==> views(loaded.disabled_features@) == views(s.disabled_features@),
        p.route_rate_limits is None ==> limit_views(loaded.route_rate_limits@) == limit_views(
            s.route_rate_limits@,
        ),
        p.feature_extras is None ==> loaded.feature_extras@ == s.feature_extras@,
{
}

} // verus!
