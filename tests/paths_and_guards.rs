use plugin_host::admin::{admin_access_guard, ClientIp, IPV4_LOOPBACK, IPV6_LOOPBACK};
use plugin_host::guards::{
    client_id, global_layers, has_bearer, oauth2_verdict, rate_limit_verdict, waf_is_malicious,
    waf_verdict,
};
use plugin_host::json::{Json, JsonNumber};
use plugin_host::oauth2;
use plugin_host::paths::{normalize_path, route_matches, route_requires_auth};
use plugin_host::rate_limit::{self, Limiter, RateLimiter};
use plugin_host::settings::{merge, settings_from_json, settings_to_json, FeaturesSettings, SettingsPatch};
use plugin_host::waf;

fn s(x: &str) -> String {
    x.to_string()
}

fn obj(members: Vec<(&str, Json)>) -> Json {
    Json::Object(members.into_iter().map(|(k, v)| (k.to_string(), v)).collect())
}

fn strs(items: &[&str]) -> Json {
    Json::Array(items.iter().map(|x| Json::Str(x.to_string())).collect())
}

fn with_extras(extras: Vec<(&str, Json)>) -> FeaturesSettings {
    let mut st = FeaturesSettings::default();
    st.feature_extras = extras.into_iter().map(|(k, v)| (k.to_string(), v)).collect();
    st
}

#[test]
fn normalize_examples() {
    assert_eq!(normalize_path("/"), "/");
    assert_eq!(normalize_path("/a//b/"), "/a/b");
    assert_eq!(normalize_path("  api//x "), "/api/x");
    assert_eq!(normalize_path(""), "/");
    assert_eq!(normalize_path("///"), "/");
}

#[test]
fn normalize_is_idempotent_on_samples() {
    for x in ["/", "a", "/a//b/", "  //x//y//  ", "a/b/", "\t/q"] {
        let once = normalize_path(x);
        assert_eq!(normalize_path(&once), once);
    }
}

#[test]
fn normalize_trailing_space_before_slash_is_kept() {
    assert_eq!(normalize_path("a /"), "/a ");
    assert_eq!(normalize_path(&normalize_path("a /")), "/a");
}

#[test]
fn pattern_matching_examples() {
    assert!(!route_matches("/a/*", "/a"));
    assert!(route_matches("/a/*", "/a/b"));
    assert!(route_matches("/a/*", "/a/b/c"));
    assert!(route_matches("/a", "/a/"));
    assert!(!route_matches("/a/*", "/ab"));
    assert!(route_matches("/*", "/anything"));
    assert!(!route_matches("/a", "/a/b"));
    assert!(route_matches("/a /*", "/a /b"));
    assert!(!route_matches("/a /*", "/a/b"));
}

#[test]
fn requires_auth_uses_patterns() {
    let list = vec![s("/secure/*"), s("/admin")];
    assert!(route_requires_auth("/secure/x", &list));
    assert!(route_requires_auth("/admin/", &list));
    assert!(!route_requires_auth("/public", &list));
    assert!(oauth2::requires_auth(&list, "/secure/x/y"));
    assert!(!oauth2::requires_auth(&[], "/secure/x"));
}

#[test]
fn bearer_detection() {
    assert!(has_bearer(Some("Bearer abc")));
    assert!(has_bearer(Some("BEARER abc")));
    assert!(!has_bearer(Some(" Bearer abc")));
    assert!(!has_bearer(Some("Basic abc")));
    assert!(!has_bearer(None));
    assert!(oauth2::has_bearer(Some("BeArEr t")));
    assert!(!oauth2::has_bearer(Some(" Bearer t")));
    assert!(oauth2::is_bearer_lowered("bearer t"));
    assert!(!oauth2::is_bearer_lowered("Bearer t"));
}

#[test]
fn oauth2_guard_rejects_without_token() {
    let st = with_extras(vec![("oauth2", obj(vec![("protected_routes", strs(&["/api/*"]))]))]);
    assert_eq!(oauth2_verdict(&st, "/api/hello", None), Some(401));
    assert_eq!(oauth2_verdict(&st, "/api/hello", Some("Basic x")), Some(401));
    assert_eq!(oauth2_verdict(&st, "/api/hello", Some("Bearer tok")), None);
    assert_eq!(oauth2_verdict(&st, "/api/hello", Some(" Bearer tok")), Some(401));
    assert_eq!(oauth2_verdict(&st, "/ping", None), None);
}

#[test]
fn waf_blocks_script_in_any_case() {
    assert!(waf::is_malicious("/search?q=<SCRIPT>", None));
    assert!(waf::is_malicious("/x/../etc", None));
    assert!(!waf::is_malicious("/hello", Some("curl")));
    let st = FeaturesSettings::default();
    assert_eq!(waf_verdict(&st, "/q?x=<ScRiPt>alert(1)", None), Some(403));
    assert_eq!(waf_verdict(&st, "/plain", None), None);
}

#[test]
fn waf_blocks_long_user_agent() {
    let ua = "a".repeat(1025);
    assert!(waf::is_malicious("/", Some(&ua)));
    let ok = "a".repeat(1024);
    assert!(!waf::is_malicious("/", Some(&ok)));
    let st = FeaturesSettings::default();
    assert_eq!(waf_verdict(&st, "/", Some(&ua)), Some(403));
}

#[test]
fn waf_configured_patterns() {
    let pats = vec![s("EvIl")];
    assert!(waf_is_malicious("/x?q=evil", None, &pats));
    assert!(waf_is_malicious("/x", Some("my EVIL agent"), &pats));
    assert!(!waf_is_malicious("/x", Some("good"), &pats));
    let st = with_extras(vec![("waf", obj(vec![("patterns", strs(&["badword"]))]))]);
    assert_eq!(waf_verdict(&st, "/p?BADWORD", None), Some(403));
    assert_eq!(waf::is_malicious_lowered("<script", None), true);
}

#[test]
fn admin_guard_examples() {
    let lo4 = Some(ClientIp::V4(IPV4_LOOPBACK));
    let lo6 = Some(ClientIp::V6(IPV6_LOOPBACK));
    let remote = Some(ClientIp::V4(0x0a00_0001));
    assert_eq!(admin_access_guard("/admin/settings", Some("localhost:3000"), lo4), None);
    assert_eq!(admin_access_guard("/admin/settings", Some("LocalHost"), lo6), None);
    assert_eq!(admin_access_guard("/admin/settings", Some("localhost"), remote), Some(403));
    assert_eq!(admin_access_guard("/admin/settings", Some("127.0.0.1:3000"), lo4), Some(403));
    assert_eq!(admin_access_guard("/admin/settings", None, lo4), Some(403));
    assert_eq!(admin_access_guard("/admin/settings", Some("localhost"), None), Some(403));
    assert_eq!(admin_access_guard("/admin/routes", Some("example.com"), remote), None);
}

#[test]
fn rate_window_with_explicit_times() {
    let mut rl = RateLimiter::new();
    assert!(rl.hit("c", "/p", 2, 1000));
    assert!(rl.hit("c", "/p", 2, 1200));
    assert!(!rl.hit("c", "/p", 2, 1999));
    assert!(rl.hit("other", "/p", 2, 1999));
    assert!(rl.hit("c", "/p", 2, 2000));
    assert_eq!(rl.entries.iter().find(|e| e.client == "c").map(|e| e.count), Some(1));
}

#[test]
fn rate_limited_second_request() {
    let mut st = FeaturesSettings::default();
    st.rate_limit_enabled = true;
    st.rate_limit_per_second = 1;
    let mut lim = Limiter::new();
    assert_eq!(rate_limit_verdict(&mut lim, &st, None, "/ping"), None);
    assert_eq!(rate_limit_verdict(&mut lim, &st, None, "/ping"), Some(429));
    assert_eq!(rate_limit_verdict(&mut lim, &st, Some("10.0.0.9"), "/ping"), None);
}

#[test]
fn check_allow_counts_per_key() {
    let mut lim = Limiter::new();
    assert!(rate_limit::check_allow(&mut lim, "ip", "/a/", 1));
    assert!(!rate_limit::check_allow(&mut lim, "ip", "/a", 1));
    assert_eq!(rate_limit::normalize_path("/a///"), "/a");
    assert_eq!(rate_limit::normalize_path("/"), "/");
    assert_eq!(rate_limit::normalize_path("//"), "");
}

#[test]
fn forwarded_for_first_entry() {
    assert_eq!(client_id(Some(" 1.2.3.4 , 5.6.7.8")), "1.2.3.4");
    assert_eq!(client_id(None), "local");
}

#[test]
fn route_limit_precedence() {
    let mut st = FeaturesSettings::default();
    st.rate_limit_per_second = 7;
    assert_eq!(st.route_limit("/x"), 7);
    st.route_rate_limits = vec![(s("/x"), 3)];
    assert_eq!(st.route_limit("/x"), 3);
    st.feature_extras = vec![(
        s("rate_limit"),
        obj(vec![
            ("rps", Json::Number(JsonNumber::Unsigned(5))),
            ("route_limits", obj(vec![("/y", Json::Number(JsonNumber::Unsigned(9)))])),
        ]),
    )];
    assert_eq!(st.route_limit("/x"), 3);
    assert_eq!(st.route_limit("/y"), 9);
    assert_eq!(st.route_limit("/z"), 5);
}

#[test]
fn feature_toggle_turns_waf_off() {
    let mut st = FeaturesSettings::default();
    st.waf_enabled = true;
    assert!(global_layers(&st).waf);
    let patch = SettingsPatch::from_json(obj(vec![("disabled_features", strs(&["waf"]))]));
    let st = merge(st, patch);
    assert!(!global_layers(&st).waf);
    assert!(st.waf_enabled);
}

#[test]
fn patch_keeps_unnamed_fields() {
    let mut st = FeaturesSettings::default();
    st.disabled_modules = vec![s("m1")];
    st.rate_limit_per_second = 4;
    let body = obj(vec![
        ("waf_enabled", Json::Bool(true)),
        ("rate_limit_per_second", Json::Number(JsonNumber::Unsigned(10))),
        ("route_rate_limits", obj(vec![("/a", Json::Number(JsonNumber::Unsigned(2))), ("/b", Json::Str(s("x")))])),
        ("feature_extras", obj(vec![("waf", obj(vec![]))])),
        ("unknown", Json::Null),
    ]);
    let st = merge(st, SettingsPatch::from_json(body));
    assert!(st.waf_enabled);
    assert_eq!(st.rate_limit_per_second, 10);
    assert_eq!(st.disabled_modules, vec![s("m1")]);
    assert_eq!(st.route_rate_limits, vec![(s("/a"), 2)]);
    assert_eq!(st.feature_extras.len(), 1);
    assert!(!st.oauth2_enabled);
    assert!(st.admin_console_enabled);
}

#[test]
fn patch_twice_same_as_once() {
    let body = || obj(vec![("oauth2_enabled", Json::Bool(true)), ("disabled_routes", strs(&["/x"]))]);
    let once = merge(FeaturesSettings::default(), SettingsPatch::from_json(body()));
    let twice = merge(
        merge(FeaturesSettings::default(), SettingsPatch::from_json(body())),
        SettingsPatch::from_json(body()),
    );
    assert_eq!(once.oauth2_enabled, twice.oauth2_enabled);
    assert_eq!(once.disabled_routes, twice.disabled_routes);
}

#[test]
fn per_second_is_held_at_u32_max() {
    let body = obj(vec![("rate_limit_per_second", Json::Number(JsonNumber::Unsigned(0x1_0000_0005)))]);
    let st = merge(FeaturesSettings::default(), SettingsPatch::from_json(body));
    assert_eq!(st.rate_limit_per_second, u32::MAX);
}

#[test]
fn per_second_zero_is_ignored() {
    let mut st = FeaturesSettings::default();
    st.rate_limit_per_second = 8;
    let body = obj(vec![("rate_limit_per_second", Json::Number(JsonNumber::Unsigned(0)))]);
    let st = merge(st, SettingsPatch::from_json(body));
    assert_eq!(st.rate_limit_per_second, 8);
}

#[test]
fn stored_settings_load_back() {
    let mut st = FeaturesSettings::default();
    st.waf_enabled = true;
    st.rate_limit_per_second = 12;
    st.disabled_routes = vec![s("/greet/hi")];
    st.route_rate_limits = vec![(s("/x"), 3)];
    st.feature_extras = vec![(s("waf"), obj(vec![("patterns", strs(&["evil"]))]))];
    let patch = SettingsPatch::from_json(obj(vec![("oauth2_enabled", Json::Bool(true))]));
    let merged = merge(st, patch);
    let loaded = settings_from_json(settings_to_json(merged));
    assert!(loaded.waf_enabled);
    assert!(loaded.oauth2_enabled);
    assert_eq!(loaded.rate_limit_per_second, 12);
    assert_eq!(loaded.disabled_routes, vec![s("/greet/hi")]);
    assert_eq!(loaded.route_rate_limits, vec![(s("/x"), 3)]);
    assert_eq!(loaded.waf_patterns(), vec![s("evil")]);
    let empty = settings_from_json(Json::Null);
    assert_eq!(empty.rate_limit_per_second, 1);
    assert!(empty.admin_console_enabled);
}

#[test]
fn ill_typed_settings_load_as_defaults() {
    let doc = obj(vec![("rate_limit_enabled", Json::Bool(true)), ("waf_enabled", Json::Str(s("yes")))]);
    let st = settings_from_json(doc);
    assert!(!st.rate_limit_enabled);
    assert!(!st.waf_enabled);
    assert_eq!(st.rate_limit_per_second, 1);
    let doc = obj(vec![("oauth2_enabled", Json::Bool(true)), ("disabled_routes", Json::Array(vec![Json::Str(s("/a")), Json::Null]))]);
    assert!(!settings_from_json(doc).oauth2_enabled);
    let doc = obj(vec![("oauth2_enabled", Json::Bool(true)), ("rate_limit_per_second", Json::Number(JsonNumber::Unsigned(1 << 40)))]);
    assert!(!settings_from_json(doc).oauth2_enabled);
    let doc = obj(vec![("oauth2_enabled", Json::Bool(true)), ("unknown", Json::Null)]);
    assert!(settings_from_json(doc).oauth2_enabled);
}
