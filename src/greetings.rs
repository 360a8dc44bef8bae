//! The JSON handlers of the bundled greetings, hello and ping modules. A
//! handler gets the request body already parsed (`None` when it is not
//! JSON) and the clock readings it reports.
use vstd::prelude::*;
use crate::decimal::{digits, i64_text, signed_digits, u64_text};
use crate::json::{json_key as key, json_text as text, keys_differ, lemma_member_at, Json, JsonNumber};
use crate::text::{concat, str_eq};

verus! {

/// The string member `key` of `j`.
pub open spec fn str_at(j: Json, key: Seq<char>) -> Option<Seq<char>> {
    match j.get_spec(key) {
        Some(Json::Str(s)) => Some(s@),
        _ => None,
    }
}

pub open spec fn str_or(j: Json, key: Seq<char>, default: Seq<char>) -> Seq<char> {
    match str_at(j, key) {
        Some(s) => s,
        None => default,
    }
}

pub open spec fn u64_at(j: Json, key: Seq<char>) -> Option<u64> {
    match j.get_spec(key) {
        Some(v) => v.as_u64_spec(),
        None => None,
    }
}

pub open spec fn bool_at(j: Json, key: Seq<char>) -> Option<bool> {
    match j.get_spec(key) {
        Some(Json::Bool(b)) => Some(b),
        _ => None,
    }
}

fn owned(s: String) -> (r: Json)
    ensures
        r matches Json::Str(t) && t@ == s@,
{
    Json::Str(s)
}

fn str_or_default(data: &Json, k: &str, default: &str) -> (r: String)
    ensures
        r@ == str_or(*data, k@, default@),
{
    match data.get(k) {
        Some(Json::Str(s)) => s.clone(),
        _ => String::from_str(default),
    }
}

/// The greeting that precedes a message in each supported language.
pub open spec fn salutation(language: Seq<char>) -> Seq<char> {
    if language == "vi"@ {
        "Xin chào! "@
    } else if language == "es"@ {
        "¡Hola! "@
    } else if language == "fr"@ {
        "Bonjour! "@
    } else if language == "de"@ {
        "Hallo! "@
    } else {
        "Hello! "@
    }
}

fn salutation_of(language: &str) -> (r: &'static str)
    ensures
        r@ == salutation(language@),
{
    if str_eq(language, "vi") {
        "Xin chào! "
    } else if str_eq(language, "es") {
        "¡Hola! "
    } else if str_eq(language, "fr") {
        "Bonjour! "
    } else if str_eq(language, "de") {
        "Hallo! "
    } else {
        "Hello! "
    }
}

/// `PUT /greet/message`: the message greeted in the requested language.
pub fn update_message(body: Option<Json>, now: &str) -> (r: Json)
    ensures
        match body {
            Some(data) => {
                let message = str_or(data, "message"@, "Hello World"@);
                let language = str_or(data, "language"@, "en"@);
                &&& str_at(r, "status"@) == Some("updated"@)
                &&& str_at(r, "original_message"@) == Some(message)
                &&& str_at(r, "localized_message"@) == Some(salutation(language) + message)
                &&& str_at(r, "language"@) == Some(language)
                &&& str_at(r, "updated_at"@) == Some(now@)
            },
            None => str_at(r, "status"@) == Some("error"@),
        },
{
    proof {
        reveal_strlit("status");
        reveal_strlit("original_message");
        reveal_strlit("localized_message");
        reveal_strlit("language");
        reveal_strlit("updated_at");
    }
    match body {
        Some(data) => {
            let message = str_or_default(&data, "message", "Hello World");
            let language = str_or_default(&data, "language", "en");
            let localized = concat(salutation_of(language.as_str()), message.as_str());
            let entries: Vec<(String, Json)> = vec![
                (key("status"), text("updated")),
                (key("original_message"), owned(message)),
                (key("localized_message"), owned(localized)),
                (key("language"), owned(language)),
                (key("updated_at"), text(now)),
            ];
            proof {
                reveal_with_fuel(keys_differ, 6);
                let e = entries@;
                assert(e[0].0@ == "status"@);
                assert(e[1].0@ == "original_message"@);
                assert(e[2].0@ == "localized_message"@);
                assert(e[3].0@ == "language"@);
                assert(e[4].0@ == "updated_at"@);
                assert("status"@ != "original_message"@);
                assert("status"@ != "localized_message"@);
                assert("original_message"@ != "localized_message"@);
                assert("status"@ != "language"@);
                assert("original_message"@ != "language"@);
                assert("localized_message"@ != "language"@);
                assert("status"@ != "updated_at"@);
                assert("original_message"@ != "updated_at"@);
                assert("localized_message"@ != "updated_at"@);
                assert("language"@ != "updated_at"@);
                lemma_member_at(e, 0, "status"@);
                lemma_member_at(e, 1, "original_message"@);
                lemma_member_at(e, 2, "localized_message"@);
                lemma_member_at(e, 3, "language"@);
                lemma_member_at(e, 4, "updated_at"@);
            }
            Json::Object(entries)
        },
        None => {
            let langs: Vec<Json> = vec![text("en"), text("vi"), text("es"), text("fr"), text("de")];
            let example: Vec<(String, Json)> = vec![
                (key("message"), text("How are you?")),
                (key("language"), text("vi")),
            ];
            let entries: Vec<(String, Json)> = vec![
                (key("status"), text("error")),
                (key("message"), text("Invalid JSON body. Expected: {\"message\": \"string\", \"language\": \"string\"}")),
                (key("supported_languages"), Json::Array(langs)),
                (key("example"), Json::Object(example)),
            ];
            proof {
                lemma_member_at(entries@, 0, "status"@);
            }
            Json::Object(entries)
        },
    }
}

/// `POST /greet/user`: a welcome for the named user.
pub fn create_user(body: Option<Json>, timestamp: i64, now: &str) -> (r: Json)
    ensures
        match body {
            Some(data) => {
                let name = str_or(data, "name"@, "Anonymous"@);
                let age: u64 = match u64_at(data, "age"@) {
                    Some(n) => n,
                    None => 0,
                };
                &&& str_at(r, "status"@) == Some("success"@)
                &&& str_at(r, "message"@) == Some("Hello "@ + name + "! Welcome to our API."@)
                &&& str_at(r, "created_at"@) == Some(now@)
                &&& match r.get_spec("user"@) {
                    Some(user) => {
                        &&& str_at(user, "name"@) == Some(name)
                        &&& u64_at(user, "age"@) == Some(age)
                        &&& str_at(user, "id"@) == Some("user_"@ + signed_digits(timestamp as int))
                        &&& str_at(user, "greeting"@) == Some(
                            "Hi "@ + name + ", you are "@ + digits(age as nat) + " years old!"@,
                        )
                    },
                    None => false,
                }
            },
            None => str_at(r, "status"@) == Some("error"@),
        },
{
    proof {
        reveal_strlit("status");
        reveal_strlit("message");
        reveal_strlit("user");
        reveal_strlit("created_at");
        reveal_strlit("name");
        reveal_strlit("age");
        reveal_strlit("id");
        reveal_strlit("greeting");
    }
    match body {
        Some(data) => {
            let name = str_or_default(&data, "name", "Anonymous");
            let age: u64 = match data.get("age") {
                Some(v) => match v.as_u64() {
                    Some(n) => n,
                    None => 0,
                },
                None => 0,
            };
            let message = concat(concat("Hello ", name.as_str()).as_str(), "! Welcome to our API.");
            let id = concat("user_", i64_text(timestamp).as_str());
            let greeting = concat(
                concat(concat(concat("Hi ", name.as_str()).as_str(), ", you are ").as_str(), u64_text(age).as_str()).as_str(),
                " years old!",
            );
            let user: Vec<(String, Json)> = vec![
                (key("name"), owned(name)),
                (key("age"), Json::Number(JsonNumber::Unsigned(age))),
                (key("id"), owned(id)),
                (key("greeting"), owned(greeting)),
            ];
            proof {
                reveal_with_fuel(keys_differ, 6);
                let u = user@;
                assert(u[0].0@ == "name"@);
                assert(u[1].0@ == "age"@);
                assert(u[2].0@ == "id"@);
                assert(u[3].0@ == "greeting"@);
                assert("name"@ != "age"@);
                assert("name"@ != "id"@);
                assert("age"@ != "id"@);
                assert("name"@ != "greeting"@);
                assert("age"@ != "greeting"@);
                assert("id"@ != "greeting"@);
                lemma_member_at(u, 0, "name"@);
                lemma_member_at(u, 1, "age"@);
                lemma_member_at(u, 2, "id"@);
                lemma_member_at(u, 3, "greeting"@);
            }
            let entries: Vec<(String, Json)> = vec![
                (key("status"), text("success")),
                (key("message"), owned(message)),
                (key("user"), Json::Object(user)),
                (key("created_at"), text(now)),
            ];
            proof {
                reveal_with_fuel(keys_differ, 6);
                let e = entries@;
                assert(e[0].0@ == "status"@);
                assert(e[1].0@ == "message"@);
                assert(e[2].0@ == "user"@);
                assert(e[3].0@ == "created_at"@);
                assert("status"@ != "message"@);
                assert("status"@ != "user"@);
                assert("message"@ != "user"@);
                assert("status"@ != "created_at"@);
                assert("message"@ != "created_at"@);
                assert("user"@ != "created_at"@);
                lemma_member_at(e, 0, "status"@);
                lemma_member_at(e, 1, "message"@);
                lemma_member_at(e, 2, "user"@);
                lemma_member_at(e, 3, "created_at"@);
            }
            Json::Object(entries)
        },
        None => {
            let example: Vec<(String, Json)> = vec![
                (key("name"), text("John")),
                (key("age"), Json::Number(JsonNumber::Unsigned(25))),
            ];
            let entries: Vec<(String, Json)> = vec![
                (key("status"), text("error")),
                (key("message"), text("Invalid JSON body. Expected: {\"name\": \"string\", \"age\": number}")),
                (key("example"), Json::Object(example)),
            ];
            proof {
                lemma_member_at(entries@, 0, "status"@);
            }
            Json::Object(entries)
        },
    }
}

/// How many items a reset of `target` removes.
pub open spec fn items_for(target: Seq<char>) -> u64 {
    if target == "users"@ {
        42
    } else if target == "messages"@ {
        128
    } else if target == "all"@ {
        170
    } else {
        0
    }
}

fn items_of(target: &str) -> (r: u64)
    ensures
        r == items_for(target@),
{
    if str_eq(target, "users") {
        42
    } else if str_eq(target, "messages") {
        128
    } else if str_eq(target, "all") {
        170
    } else {
        0
    }
}

/// `DELETE /greet/reset`: resets the target once confirmed.
pub fn reset_data(body: Option<Json>, now: &str) -> (r: Json)
    ensures
        match body {
            Some(data) => {
                let target = str_or(data, "target"@, "all"@);
                if bool_at(data, "confirm"@) == Some(true) {
                    &&& str_at(r, "status"@) == Some("deleted"@)
                    &&& str_at(r, "message"@) == Some("Successfully reset "@ + target + " data"@)
                    &&& str_at(r, "target"@) == Some(target)
                    &&& str_at(r, "deleted_at"@) == Some(now@)
                    &&& u64_at(r, "items_deleted"@) == Some(items_for(target))
                } else {
                    str_at(r, "status"@) == Some("cancelled"@)
                }
            },
            None => str_at(r, "status"@) == Some("error"@),
        },
{
    proof {
        reveal_strlit("status");
        reveal_strlit("message");
        reveal_strlit("target");
        reveal_strlit("deleted_at");
        reveal_strlit("items_deleted");
    }
    match body {
        Some(data) => {
            let confirm = match data.get("confirm") {
                Some(v) => match v.as_bool() {
                    Some(b) => b,
                    None => false,
                },
                None => false,
            };
            let target = str_or_default(&data, "target", "all");
            if confirm {
                let message = concat(concat("Successfully reset ", target.as_str()).as_str(), " data");
                let items = items_of(target.as_str());
                let entries: Vec<(String, Json)> = vec![
                    (key("status"), text("deleted")),
                    (key("message"), owned(message)),
                    (key("target"), owned(target)),
                    (key("deleted_at"), text(now)),
                    (key("items_deleted"), Json::Number(JsonNumber::Unsigned(items))),
                ];
                proof {
                    reveal_with_fuel(keys_differ, 6);
                    let e = entries@;
                    assert(e[0].0@ == "status"@);
                    assert(e[1].0@ == "message"@);
                    assert(e[2].0@ == "target"@);
                    assert(e[3].0@ == "deleted_at"@);
                    assert(e[4].0@ == "items_deleted"@);
                    assert("status"@ != "message"@);
                    assert("status"@[0] != "target"@[0]);
                    assert("status"@ != "target"@);
                    assert("message"@ != "target"@);
                    assert("status"@ != "deleted_at"@);
                    assert("message"@ != "deleted_at"@);
                    assert("target"@ != "deleted_at"@);
                    assert("status"@ != "items_deleted"@);
                    assert("message"@ != "items_deleted"@);
                    assert("target"@ != "items_deleted"@);
                    assert("deleted_at"@ != "items_deleted"@);
                    lemma_member_at(e, 0, "status"@);
                    lemma_member_at(e, 1, "message"@);
                    lemma_member_at(e, 2, "target"@);
                    lemma_member_at(e, 3, "deleted_at"@);
                    lemma_member_at(e, 4, "items_deleted"@);
                }
                Json::Object(entries)
            } else {
                let entries: Vec<(String, Json)> = vec![
                    (key("status"), text("cancelled")),
                    (key("message"), text("Reset cancelled. Set 'confirm': true to proceed.")),
                    (key("warning"), text("This action cannot be undone!")),
                ];
                proof {
                    lemma_member_at(entries@, 0, "status"@);
                }
                Json::Object(entries)
            }
        },
        None => {
            let example: Vec<(String, Json)> = vec![
                (key("confirm"), Json::Bool(true)),
                (key("target"), text("users")),
            ];
            let targets: Vec<Json> = vec![text("users"), text("messages"), text("all")];
            let entries: Vec<(String, Json)> = vec![
                (key("status"), text("error")),
                (key("message"), text("Invalid JSON body. Expected: {\"confirm\": boolean, \"target\": \"string\"}")),
                (key("example"), Json::Object(example)),
                (key("valid_targets"), Json::Array(targets)),
            ];
            proof {
                lemma_member_at(entries@, 0, "status"@);
            }
            Json::Object(entries)
        },
    }
}

/// `GET /api/hello`: a greeting with the time it was made.
pub fn hello(now: &str) -> (r: Json)
    ensures
        str_at(r, "msg"@) == Some("Hello from plugin!"@),
        str_at(r, "time"@) == Some(now@),
{
    proof {
        reveal_strlit("msg");
        reveal_strlit("time");
    }
    let entries: Vec<(String, Json)> = vec![
        (key("msg"), text("Hello from plugin!")),
        (key("time"), text(now)),
    ];
    proof {
        reveal_with_fuel(keys_differ, 3);
        assert(entries@[0].0@ == "msg"@);
        assert(entries@[1].0@ == "time"@);
        assert("msg"@ != "time"@);
        lemma_member_at(entries@, 0, "msg"@);
        lemma_member_at(entries@, 1, "time"@);
    }
    Json::Object(entries)
}

/// `GET /ping`.
pub fn ping() -> (r: Json)
    ensures
        r.get_spec("pong"@) == Some(Json::Bool(true)),
{
    let entries: Vec<(String, Json)> = vec![(key("pong"), Json::Bool(true))];
    proof {
        lemma_member_at(entries@, 0, "pong"@);
    }
    Json::Object(entries)
}

/// `GET /greet/info`: what the greetings module serves.
pub fn greet_info() -> (r: Json)
    ensures
        str_at(r, "module"@) == Some("greetings"@),
        str_at(r, "version"@) == Some("2.0.0"@),
{
    proof {
        reveal_strlit("module");
        reveal_strlit("version");
        reveal_with_fuel(keys_differ, 3);
    }
    let gets: Vec<Json> = vec![text("/greet/hi"), text("/greet/bye"), text("/greet/html"), text("/greet/info")];
    let routes: Vec<(String, Json)> = vec![
        (key("get"), Json::Array(gets)),
        (key("post"), Json::Array(vec![text("/greet/user")])),
        (key("put"), Json::Array(vec![text("/greet/message")])),
        (key("delete"), Json::Array(vec![text("/greet/reset")])),
    ];
    let entries: Vec<(String, Json)> = vec![
        (key("module"), text("greetings")),
        (key("version"), text("2.0.0")),
        (key("routes"), Json::Object(routes)),
        (key("description"), text("A FastAPI-like multi-method greeting module")),
    ];
    proof {
        assert(entries@[0].0@ == "module"@);
        assert(entries@[1].0@ == "version"@);
        assert("module"@ != "version"@);
        lemma_member_at(entries@, 0, "module"@);
        lemma_member_at(entries@, 1, "version"@);
    }
    Json::Object(entries)
}

/// `GET /assets/data.json`: the asset's JSON, or an error object when it
/// did not parse.
pub fn json_asset(parsed: Option<Json>) -> (r: Json)
    ensures
        match parsed {
            Some(v) => r == v,
            None => str_at(r, "error"@) == Some("invalid json"@),
        },
{
    match parsed {
        Some(v) => v,
        None => {
            let entries: Vec<(String, Json)> = vec![(key("error"), text("invalid json"))];
            proof {
                reveal_strlit("error");
                lemma_member_at(entries@, 0, "error"@);
            }
            Json::Object(entries)
        },
    }
}

} // verus!
