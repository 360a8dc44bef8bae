use plugin_host::greetings::{create_user, greet_info, hello, json_asset, ping, reset_data, update_message};
use plugin_host::json::{Json, JsonNumber};

fn obj(members: Vec<(&str, Json)>) -> Json {
    Json::Object(members.into_iter().map(|(k, v)| (k.to_string(), v)).collect())
}

fn str_of<'a>(j: &'a Json, k: &str) -> Option<&'a str> {
    j.get(k).and_then(|v| v.as_str())
}

#[test]
fn create_user_echoes_name() {
    let body = obj(vec![("name", Json::Str("Ada".to_string()))]);
    let r = create_user(Some(body), 1700000000, "2024-01-01T00:00:00+00:00");
    assert_eq!(str_of(&r, "status"), Some("success"));
    assert_eq!(str_of(&r, "message"), Some("Hello Ada! Welcome to our API."));
    let user = r.get("user").unwrap();
    assert_eq!(str_of(user, "name"), Some("Ada"));
    assert_eq!(user.get("age").and_then(|v| v.as_u64()), Some(0));
    assert_eq!(str_of(user, "id"), Some("user_1700000000"));
    assert_eq!(str_of(user, "greeting"), Some("Hi Ada, you are 0 years old!"));
}

#[test]
fn create_user_with_age_and_negative_clock() {
    let body = obj(vec![("age", Json::Number(JsonNumber::Unsigned(30)))]);
    let r = create_user(Some(body), -5, "t");
    let user = r.get("user").unwrap();
    assert_eq!(str_of(user, "name"), Some("Anonymous"));
    assert_eq!(str_of(user, "id"), Some("user_-5"));
    assert_eq!(str_of(user, "greeting"), Some("Hi Anonymous, you are 30 years old!"));
    assert_eq!(str_of(&create_user(None, 0, "t"), "status"), Some("error"));
}

#[test]
fn update_message_languages() {
    let body = obj(vec![("message", Json::Str("How are you?".to_string())), ("language", Json::Str("vi".to_string()))]);
    let r = update_message(Some(body), "now");
    assert_eq!(str_of(&r, "localized_message"), Some("Xin chào! How are you?"));
    assert_eq!(str_of(&r, "updated_at"), Some("now"));
    let d = update_message(Some(Json::Null), "now");
    assert_eq!(str_of(&d, "localized_message"), Some("Hello! Hello World"));
    assert_eq!(str_of(&d, "language"), Some("en"));
    assert_eq!(str_of(&update_message(None, "now"), "status"), Some("error"));
}

#[test]
fn reset_needs_confirmation() {
    let yes = obj(vec![("confirm", Json::Bool(true)), ("target", Json::Str("users".to_string()))]);
    let r = reset_data(Some(yes), "now");
    assert_eq!(str_of(&r, "status"), Some("deleted"));
    assert_eq!(str_of(&r, "message"), Some("Successfully reset users data"));
    assert_eq!(r.get("items_deleted").and_then(|v| v.as_u64()), Some(42));
    let all = reset_data(Some(obj(vec![("confirm", Json::Bool(true))])), "now");
    assert_eq!(all.get("items_deleted").and_then(|v| v.as_u64()), Some(170));
    let other = reset_data(Some(obj(vec![("confirm", Json::Bool(true)), ("target", Json::Str("x".to_string()))])), "now");
    assert_eq!(other.get("items_deleted").and_then(|v| v.as_u64()), Some(0));
    let no = reset_data(Some(obj(vec![])), "now");
    assert_eq!(str_of(&no, "status"), Some("cancelled"));
    assert_eq!(str_of(&reset_data(None, "now"), "status"), Some("error"));
}

#[test]
fn small_handlers() {
    assert_eq!(str_of(&hello("t0"), "msg"), Some("Hello from plugin!"));
    assert_eq!(str_of(&hello("t0"), "time"), Some("t0"));
    assert_eq!(ping().get("pong").and_then(|v| v.as_bool()), Some(true));
    assert_eq!(str_of(&greet_info(), "version"), Some("2.0.0"));
    assert_eq!(str_of(&json_asset(None), "error"), Some("invalid json"));
    assert!(matches!(json_asset(Some(Json::Bool(false))), Json::Bool(false)));
}
