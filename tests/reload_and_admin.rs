use plugin_host::admin::{group_routes, route_listing};
use plugin_host::features::{features_to_load, has_feature, probe_symbols};
use plugin_host::package::read_package_name;
use plugin_host::settings::FeaturesSettings;
use plugin_host::supervisor::LiveState;
use plugin_host::watcher::{watch_step, WatchAction, WatchEvent, WatchKind, WatchState};

fn s(x: &str) -> String {
    x.to_string()
}

#[test]
fn disabled_features_are_not_loaded() {
    let mut st = FeaturesSettings::default();
    st.disabled_features = vec![s("waf")];
    let names = vec![s("cors"), s("waf"), s("oauth2")];
    assert_eq!(features_to_load(&names, &st), vec![s("cors"), s("oauth2")]);
}

#[test]
fn feature_symbols_generic_then_suffixed() {
    assert_eq!(probe_symbols("feature_name", "cors"), vec![s("feature_name"), s("feature_name_cors")]);
}

#[test]
fn feature_presence_by_file_name() {
    let files = vec![s("libwaf.so"), s("CORS_plugin.dll")];
    assert!(has_feature(&files, "cors"));
    assert!(has_feature(&files, "WAF"));
    assert!(!has_feature(&files, "oauth2"));
    assert!(!has_feature(&vec![], "cors"));
}

#[test]
fn snapshot_survives_install() {
    let mut live = LiveState::new(s("T1"));
    let snap = live.snapshot();
    live.install(s("T2"));
    assert_eq!(*snap, "T1");
    assert_eq!(*live.snapshot(), "T2");
    assert_eq!(live.generation, 1);
}

#[test]
fn debounce_then_reload() {
    let (st, a) = watch_step(WatchKind::Deployment, WatchState::Idle, WatchEvent::File { transient: false });
    assert!(st == WatchState::Debouncing);
    assert!(a == WatchAction::Wait(300));
    let (st, a) = watch_step(WatchKind::Deployment, st, WatchEvent::File { transient: false });
    assert!(a == WatchAction::Nothing);
    let (st, a) = watch_step(WatchKind::Deployment, st, WatchEvent::WindowElapsed);
    assert!(st == WatchState::Idle);
    assert!(a == WatchAction::Reload);
    let (_, a) = watch_step(WatchKind::Sources, WatchState::Idle, WatchEvent::File { transient: false });
    assert!(a == WatchAction::Wait(400));
    let (_, a) = watch_step(WatchKind::Sources, WatchState::Debouncing, WatchEvent::WindowElapsed);
    assert!(a == WatchAction::Build);
    let (st, a) = watch_step(WatchKind::Sources, WatchState::Idle, WatchEvent::File { transient: true });
    assert!(st == WatchState::Idle && a == WatchAction::Nothing);
}

#[test]
fn package_name_from_manifest_text() {
    let toml = "[workspace]\nname = \"ws\"\n\n[package]\r\nversion = \"0.1.0\"\n  name = \"greetings_mod\"  \n[dependencies]\nname = \"x\"\n";
    assert_eq!(read_package_name(toml), Some(s("greetings_mod")));
    assert_eq!(read_package_name("[package]\nname = \"\"\nname=real\n"), Some(s("real")));
    assert_eq!(read_package_name("[lib]\nname = \"l\"\n"), None);
    assert_eq!(read_package_name(""), None);
    assert_eq!(read_package_name("[package]\nname = \"a\" = \"b\""), Some(s("a")));
}

#[test]
fn route_listing_modules() {
    let served = vec![(s("/greet/hi"), Some(s("greetings"))), (s("/api/hello"), None)];
    let disabled = vec![s("//x/y"), s("/solo")];
    let l = route_listing(&served, &disabled);
    assert_eq!(
        l,
        vec![
            (s("greetings"), s("/greet/hi")),
            (s("api"), s("/api/hello")),
            (s("x"), s("//x/y")),
            (s("solo"), s("/solo")),
        ]
    );
}


#[test]
fn route_groups_sorted_and_deduplicated() {
    let served = vec![(s("/b/2"), None), (s("/a/x"), None), (s("/b/1"), None), (s("/greet/hi"), Some(s("greetings")))];
    let disabled = vec![s("/b/1"), s("/greet/bye")];
    let g = group_routes(&served, &disabled);
    let flat: Vec<(String, Vec<String>)> = g.into_iter().map(|g| (g.module, g.routes)).collect();
    assert_eq!(
        flat,
        vec![
            (s("a"), vec![s("/a/x")]),
            (s("b"), vec![s("/b/1"), s("/b/2")]),
            (s("greet"), vec![s("/greet/bye")]),
            (s("greetings"), vec![s("/greet/hi")]),
        ]
    );
}
