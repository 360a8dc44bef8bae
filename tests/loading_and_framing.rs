use plugin_host::cors::{cors_active, manifest_json, route_cors_layer, AllowList};
use plugin_host::json::{Json, JsonNumber};
use plugin_host::loader::{
    add_library, build_route_table, built_candidates_for, file_mentions_feature,
    is_library_extension, is_route_disabled, is_transient_name, manifest_entries, module_folder,
    should_ignore_event, LibraryRoutes, Method, RouteTable,
};
use plugin_host::openapi::{build_openapi_from_modules, openapi_document, operation_json, ApiRoute, Example, Operation};
use plugin_host::plugins::{css_asset, greet_bye, greet_hi, greet_html, html_asset, js_asset, text_asset, xml_asset};
use plugin_host::response::{to_response, to_response_with_status, BodyKind};
use plugin_host::settings::FeaturesSettings;
use plugin_host::util::path_to_route;

fn s(x: &str) -> String {
    x.to_string()
}

fn obj(members: Vec<(&str, Json)>) -> Json {
    Json::Object(members.into_iter().map(|(k, v)| (k.to_string(), v)).collect())
}

fn strs(items: &[&str]) -> Json {
    Json::Array(items.iter().map(|x| Json::Str(x.to_string())).collect())
}

fn item(path: &str, method: &str, key: &str, sym: &str) -> Json {
    obj(vec![("path", Json::Str(s(path))), ("method", Json::Str(s(method))), (key, Json::Str(s(sym)))])
}

#[test]
fn manifest_entries_skip_unusable_items() {
    let items = vec![
        item("/api/hello", "get", "get", "h_get"),
        item("/x", "post", "post_bytes", "p"),
        item("", "get", "get", "g"),
        item("/y", "patch", "get", "g"),
        item("/z", "put", "get", "wrong_key"),
        obj(vec![("path", Json::Str(s("/d"))), ("delete", Json::Str(s("del")))]),
        Json::Null,
    ];
    let es = manifest_entries(&items);
    assert_eq!(es.len(), 2);
    assert_eq!(es[0].path, "/api/hello");
    assert!(es[0].method == Method::Get);
    assert_eq!(es[0].symbol, "h_get");
    assert_eq!(es[0].content_type, "application/json");
    assert!(es[1].method == Method::Post);
    assert_eq!(es[1].symbol, "p");
}

#[test]
fn two_methods_share_one_leaf() {
    let mut t: RouteTable<u32> = RouteTable::new();
    add_library(&mut t, "m", vec![(s("/x"), Method::Get, Some(1)), (s("/x"), Method::Post, Some(2))], &vec![]);
    assert_eq!(t.routes.len(), 1);
    assert_eq!(t.routes[0].methods.get, Some(1));
    assert_eq!(t.routes[0].methods.post, Some(2));
    assert_eq!(t.routes[0].methods.put, None);
}

#[test]
fn later_registration_wins() {
    let mut t: RouteTable<u32> = RouteTable::new();
    add_library(&mut t, "a", vec![(s("/x"), Method::Get, Some(1))], &vec![]);
    add_library(&mut t, "b", vec![(s("/x"), Method::Get, Some(5)), (s("/y"), Method::Put, None)], &vec![]);
    assert_eq!(t.routes.len(), 1);
    assert_eq!(t.routes[0].methods.get, Some(5));
    assert_eq!(t.routes[0].module, "b");
}

#[test]
fn disabled_route_gets_no_leaf() {
    let mut st = FeaturesSettings::default();
    st.disabled_routes = vec![s("/greet/hi")];
    st.disabled_modules = vec![s("off")];
    let libs = vec![
        LibraryRoutes { module: s("greetings"), entries: vec![(s("/greet/hi"), Method::Get, Some(1u8)), (s("/greet/user"), Method::Post, Some(2))] },
        LibraryRoutes { module: s("off"), entries: vec![(s("/off"), Method::Get, Some(3))] },
    ];
    let t = build_route_table(libs, &st);
    let paths: Vec<&str> = t.routes.iter().map(|r| r.path.as_str()).collect();
    assert_eq!(paths, vec!["/greet/user"]);
    assert!(is_route_disabled(&st.disabled_routes, "/greet/hi/"));
}

#[test]
fn openapi_leaves_out_disabled_routes() {
    let mut st = FeaturesSettings::default();
    st.disabled_routes = vec![s("/greet/hi")];
    st.oauth2_enabled = true;
    st.feature_extras = vec![(s("oauth2"), obj(vec![("protected_routes", strs(&["/greet/*"]))]))];
    let routes = vec![
        ApiRoute { path: s("/greet/hi"), module: s("greetings"), method: Method::Get, content_type: s("text/html") },
        ApiRoute { path: s("/greet/user"), module: s("greetings"), method: Method::Post, content_type: s("application/json") },
        ApiRoute { path: s("/api/hello"), module: s("hello"), method: Method::Get, content_type: s("application/json") },
    ];
    let doc = build_openapi_from_modules(&routes, &st);
    let paths: Vec<&str> = doc.routes.iter().map(|r| r.path.as_str()).collect();
    assert_eq!(paths, vec!["/greet/user", "/api/hello"]);
    let user = doc.routes[0].methods.post.as_ref().unwrap();
    assert!(user.bearer);
    assert!(user.example == Example::User);
    let hello = doc.routes[1].methods.get.as_ref().unwrap();
    assert!(!hello.bearer);
    assert!(hello.example == Example::Generic);
    assert_eq!(doc.routes[1].module, "hello");
}

#[test]
fn framing_tags() {
    let r = to_response("json:{\"msg\":\"hi\"}");
    assert_eq!(r.status, 200);
    assert!(matches!(r.kind, BodyKind::Json));
    assert_eq!(r.body, "{\"msg\":\"hi\"}");
    assert!(matches!(to_response("html:<b>x</b>").kind, BodyKind::Html));
    assert!(matches!(to_response("text:x").kind, BodyKind::Text));
    assert!(matches!(to_response("js:x").kind, BodyKind::Js));
    assert!(matches!(to_response("css:x").kind, BodyKind::Css));
    assert!(matches!(to_response("xml:<a/>").kind, BodyKind::Xml));
    let auto = to_response("  [1,2]");
    assert!(matches!(auto.kind, BodyKind::Json));
    assert_eq!(auto.body, "  [1,2]");
    let plain = to_response("Hi there");
    assert!(matches!(plain.kind, BodyKind::Html));
    assert_eq!(plain.body, "Hi there");
}

#[test]
fn framing_status_and_error() {
    let r = to_response("status:201:text:made");
    assert_eq!(r.status, 201);
    assert!(matches!(r.kind, BodyKind::Text));
    assert_eq!(r.body, "made");
    let e = to_response("error:404: {\"e\":1}");
    assert_eq!(e.status, 404);
    assert!(matches!(e.kind, BodyKind::Json));
    assert_eq!(e.body, " {\"e\":1}");
    let t = to_response("error: 418 :teapot");
    assert_eq!(t.status, 418);
    assert!(matches!(t.kind, BodyKind::Text));
    let broken = to_response("error:500:{bad");
    assert_eq!(broken.status, 500);
    assert!(matches!(broken.kind, BodyKind::Text));
    assert_eq!(broken.body, "{bad");
    let bad = to_response("error:99:x");
    assert_eq!(bad.status, 500);
    let big = to_response("error:70000:x");
    assert_eq!(big.status, 500);
    let none = to_response("error:oops");
    assert_eq!(none.status, 500);
    assert_eq!(none.body, "oops");
    let nopayload = to_response("status:abc");
    assert_eq!(nopayload.status, 200);
    assert_eq!(nopayload.body, "");
    let w = to_response_with_status("css:a{}", 202);
    assert_eq!(w.status, 202);
    assert_eq!(w.body, "a{}");
    assert_eq!(to_response("status:+204:x").status, 204);
}

#[test]
fn legacy_route_from_file() {
    assert_eq!(path_to_route("./build", "./build/hello.so"), Some(s("/api/hello")));
    assert_eq!(path_to_route("./build", "./build/api/x.y.dll"), Some(s("/api/x.y")));
    assert_eq!(path_to_route("./build", "./build/sub\\mod.so"), Some(s("/api/sub/mod")));
    assert_eq!(path_to_route("./build", "./other/hello.so"), None);
}

#[test]
fn name_reconciliation() {
    let names = vec![(s("greetings_pkg"), s("greetings")), (s("greetings"), s("greetings"))];
    assert_eq!(module_folder("greetings_pkg", &names), "greetings");
    assert_eq!(module_folder("libgreetings_pkg", &names), "greetings");
    assert_eq!(module_folder("libunknown", &names), "libunknown");
    assert!(is_library_extension("so"));
    assert!(is_library_extension("dll"));
    assert!(!is_library_extension("txt"));
    let c = built_candidates_for("pkg", "dir");
    assert_eq!(c, vec![s("libpkg.so"), s("pkg.dll"), s("libpkg.dll"), s("libdir.so"), s("dir.dll"), s("libdir.dll")]);
    assert!(file_mentions_feature("libCORS_feature.so", "cors"));
    assert!(!file_mentions_feature("libwaf.so", "cors"));
}

#[test]
fn watcher_ignores_transient_files() {
    assert!(is_transient_name("a.TMP"));
    assert!(is_transient_name("x.swp"));
    assert!(is_transient_name("x~"));
    assert!(is_transient_name("f.crdownload"));
    assert!(!is_transient_name("libx.so"));
    assert!(should_ignore_event(&vec![Some(s("a.tmp")), Some(s("b.swp"))]));
    assert!(!should_ignore_event(&vec![Some(s("a.tmp")), Some(s("lib.so"))]));
    assert!(!should_ignore_event(&vec![None]));
}

#[test]
fn cors_policy_from_settings() {
    let mut st = FeaturesSettings::default();
    assert!(route_cors_layer("/x", &st).is_none());
    st.feature_extras = vec![(
        s("cors"),
        obj(vec![
            ("enabled_routes", strs(&["/api/*"])),
            ("origins", strs(&["https://a.example", "bad\u{1}"])),
            ("methods", strs(&["GET", "BAD METHOD"])),
            ("headers", strs(&["*"])),
            ("expose_headers", strs(&["x-one", "bad header"])),
            ("allow_credentials", Json::Number(JsonNumber::Unsigned(1))),
            ("max_age", Json::Number(JsonNumber::Unsigned(60))),
        ]),
    )];
    assert!(route_cors_layer("/other", &st).is_none());
    let p = route_cors_layer("/api/x", &st).unwrap();
    match &p.origins {
        AllowList::List(l) => assert_eq!(l, &vec![s("https://a.example")]),
        _ => panic!("origins"),
    }
    assert_eq!(p.methods, Some(vec![s("GET")]));
    assert!(matches!(p.headers, AllowList::Any));
    assert_eq!(p.expose_headers, Some(vec![s("x-one")]));
    assert!(p.allow_credentials);
    assert_eq!(p.max_age, Some(60));
    st.cors_enabled = true;
    assert!(cors_active(&st, true));
    assert!(!cors_active(&st, false));
    st.disabled_features = vec![s("cors")];
    assert!(!cors_active(&st, true));
    assert!(manifest_json().contains("enabled_routes"));
}

#[test]
fn sample_module_payloads() {
    assert_eq!(greet_hi(), "Hi there! 👋");
    assert_eq!(greet_bye(), "Goodbye! 👋");
    assert!(greet_html().contains("Greetings API"));
    assert_eq!(css_asset("a{}"), "css:a{}");
    assert_eq!(html_asset("<p>"), "html:<p>");
    assert_eq!(js_asset("f()"), "js:f()");
    assert_eq!(text_asset("t"), "text:t");
    assert_eq!(xml_asset("<a/>"), "xml:<a/>");
}

#[test]
fn hello_module_scenario() {
    let items = vec![item("/api/hello", "get", "get", "h_get")];
    let es = manifest_entries(&items);
    let mut t: RouteTable<&str> = RouteTable::new();
    let resolved = es.iter().map(|e| (e.path.clone(), e.method, Some("h_get"))).collect();
    add_library(&mut t, "hello", resolved, &vec![]);
    assert_eq!(t.routes[0].path, "/api/hello");
    let r = to_response("json:{\"msg\":\"hi\"}");
    assert_eq!((r.status, r.body.as_str()), (200, "{\"msg\":\"hi\"}"));
    assert!(matches!(r.kind, BodyKind::Json));
}

#[test]
fn operation_objects() {
    let post = Operation { method: Method::Post, content_type: s("text/plain"), bearer: true, example: Example::User };
    let j = operation_json(&post);
    assert!(matches!(j.get("summary"), Some(Json::Str(t)) if t == "POST"));
    assert!(j.get("requestBody").is_some());
    match j.get("security") {
        Some(Json::Array(items)) => {
            assert_eq!(items.len(), 2);
            assert!(items[1].get("bearerAuth").is_some());
        }
        _ => panic!("security"),
    }
    let ok = j.get("responses").and_then(|r| r.get("200")).and_then(|r| r.get("content")).unwrap();
    assert!(ok.get("text/plain").is_some());
    let get = Operation { method: Method::Get, content_type: s("application/json"), bearer: false, example: Example::Generic };
    let g = operation_json(&get);
    assert!(g.get("requestBody").is_none());
    assert!(matches!(g.get("security"), Some(Json::Array(items)) if items.len() == 1));
}

#[test]
fn content_types_and_build_dirs() {
    assert_eq!(BodyKind::Css.content_type(), "text/css; charset=utf-8");
    assert_eq!(BodyKind::Json.content_type(), "application/json");
    assert!(plugin_host::watcher::is_features_dir("./features"));
    assert!(plugin_host::watcher::is_features_dir("a/features/x"));
    assert!(!plugin_host::watcher::is_features_dir("./modules"));
}

#[test]
fn credentials_from_any_nonzero_number() {
    let mk = |v: Json| {
        let mut st = FeaturesSettings::default();
        st.feature_extras = vec![(s("cors"), obj(vec![("allow_credentials", v)]))];
        route_cors_layer("/x", &st).unwrap().allow_credentials
    };
    assert!(mk(Json::Number(JsonNumber::Signed(-1))));
    assert!(mk(Json::Number(JsonNumber::Other(s("0.5")))));
    assert!(!mk(Json::Number(JsonNumber::Other(s("0.0")))));
    assert!(!mk(Json::Number(JsonNumber::Other(s("0e5")))));
    assert!(!mk(Json::Number(JsonNumber::Unsigned(0))));
    assert!(mk(Json::Bool(true)));
    assert!(!mk(Json::Str(s("1"))));
}

#[test]
fn openapi_document_layout() {
    let mut st = FeaturesSettings::default();
    st.disabled_routes = vec![s("/greet/hi")];
    let routes = vec![
        ApiRoute { path: s("/greet/hi"), module: s("greetings"), method: Method::Get, content_type: s("text/html") },
        ApiRoute { path: s("/greet/bye"), module: s("greetings"), method: Method::Get, content_type: s("text/html") },
    ];
    let doc = openapi_document(&build_openapi_from_modules(&routes, &st));
    assert!(matches!(doc.get("openapi"), Some(Json::Str(v)) if v == "3.0.0"));
    let paths = doc.get("paths").unwrap();
    assert!(paths.get("/greet/hi").is_none());
    let bye = paths.get("/greet/bye").unwrap();
    assert!(matches!(bye.get("x-module"), Some(Json::Str(m)) if m == "greetings"));
    let get = bye.get("get").unwrap();
    assert!(bye.get("post").is_none());
    match get.get("parameters") {
        Some(Json::Array(ps)) => {
            assert_eq!(ps.len(), 1);
            assert!(matches!(ps[0].get("name"), Some(Json::Str(n)) if n == "X-Custom-Header"));
        }
        _ => panic!("parameters"),
    }
    let schemes = doc.get("components").and_then(|c| c.get("securitySchemes")).unwrap();
    assert!(schemes.get("apiKeyAuth").is_some() && schemes.get("bearerAuth").is_some());
}

#[test]
fn feature_names_sorted_once() {
    let names = plugin_host::order::sorted_names(vec![s("waf"), s("cors"), s("waf"), s("oauth2")]);
    assert_eq!(names, vec![s("cors"), s("oauth2"), s("waf")]);
}
