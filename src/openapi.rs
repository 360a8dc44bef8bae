//! The OpenAPI reflection of the loaded modules: which paths appear, which
//! module owns each, and the operation of each method.
use vstd::prelude::*;
use crate::greetings::str_at;
use crate::json::{
    json_key, json_text, keys_differ, lemma_member_absent, lemma_member_at, member, push_member,
    views, Json,
};
use crate::loader::{
    Route,
    is_route_disabled, no_methods, route_disabled, with_method, Method, MethodSet, RouteTable,
};
use crate::paths::{route_match, route_requires_auth};
use crate::settings::{extra_list, FeaturesSettings};
use crate::text::str_eq;

verus! {

/// A route as a manifest describes it.
pub struct ApiRoute {
    pub path: String,
    pub module: String,
    pub method: Method,
    pub content_type: String,
}

/// The request body example an operation shows.
#[derive(PartialEq, Eq, Structural)]
pub enum Example {
    User,
    Message,
    Generic,
}

/// One documented operation.
pub struct Operation {
    pub method: Method,
    pub content_type: String,
    /// Whether a bearer token is declared besides the API key.
    pub bearer: bool,
    pub example: Example,
}

pub open spec fn example_for(path: Seq<char>) -> Example {
    if path == "/greet/user"@ {
        Example::User
    } else if path == "/greet/message"@ {
        Example::Message
    } else {
        Example::Generic
    }
}

/// The route is protected: the bearer check is on and a protected pattern
/// matches it.
pub open spec fn protected_spec(s: FeaturesSettings, path: Seq<char>) -> bool {
    let list = extra_list(s.feature_extras@, "oauth2"@, "protected_routes"@);
    s.oauth2_enabled && exists|i: int| 0 <= i < list.len() && route_match(#[trigger] list[i], path)
}

pub open spec fn operation_for(r: ApiRoute, s: FeaturesSettings) -> Operation {
    Operation {
        method: r.method,
        content_type: r.content_type,
        bearer: protected_spec(s, r.path@),
        example: example_for(r.path@),
    }
}

/// The operations documented at `path` after the routes `routes`, in order:
/// each route that is not disabled sets its method's operation.
pub open spec fn documented(routes: Seq<ApiRoute>, s: FeaturesSettings, path: Seq<char>) -> Option<
    MethodSet<Operation>,
>
    decreases routes.len(),
{
    if routes.len() == 0 {
        None
    } else {
        let prev = documented(routes.drop_last(), s, path);
        let r = routes.last();
        if r.path@ == path && !route_disabled(s.disabled_routes@, path) {
            Some(
                with_method(
                    match prev {
                        Some(m) => m,
                        None => no_methods(),
                    },
                    r.method,
                    operation_for(r, s),
                ),
            )
        } else {
            prev
        }
    }
}

/// The module of the last route on `path` that is not disabled.
pub open spec fn documented_module(routes: Seq<ApiRoute>, s: FeaturesSettings, path: Seq<char>) -> Seq<char>
    decreases routes.len(),
{
    if routes.len() == 0 {
        Seq::empty()
    } else if routes.last().path@ == path && !route_disabled(s.disabled_routes@, path) {
        routes.last().module@
    } else {
        documented_module(routes.drop_last(), s, path)
    }
}

/// A disabled route is never documented.
pub proof fn lemma_disabled_undocumented(routes: Seq<ApiRoute>, s: FeaturesSettings, path: Seq<char>)
    requires
        route_disabled(s.disabled_routes@, path),
    ensures
        documented(routes, s, path) is None,
    decreases routes.len(),
{
    if routes.len() > 0 {
        lemma_disabled_undocumented(routes.drop_last(), s, path);
    }
}

fn example_of(path: &str) -> (r: Example)
    ensures
        r == example_for(path@),
{
    if str_eq(path, "/greet/user") {
        Example::User
    } else if str_eq(path, "/greet/message") {
        Example::Message
    } else {
        Example::Generic
    }
}

fn is_protected(s: &FeaturesSettings, path: &str) -> (r: bool)
    ensures
        r == protected_spec(*s, path@),
{
    if !s.oauth2_enabled {
        return false;
    }
    let protected = s.protected_routes();
    let hit = route_requires_auth(path, protected.as_slice());
    proof {
        let pv = extra_list(s.feature_extras@, "oauth2"@, "protected_routes"@);
        assert(views(protected@) == pv);
        if hit {
            let i = choose|i: int| 0 <= i < protected@.len() && route_match((#[trigger] protected@[i])@, path@);
            assert(pv[i] == protected@[i]@);
        }
        if exists|i: int| 0 <= i < pv.len() && route_match(#[trigger] pv[i], path@) {
            let i = choose|i: int| 0 <= i < pv.len() && route_match(#[trigger] pv[i], path@);
            assert(pv[i] == protected@[i]@);
        }
    }
    hit
}

/// The documented paths: for every path, the operations its routes declare
/// (later routes replace earlier ones of the same method), owned by the
/// module of the last of them; disabled routes never appear.
pub fn build_openapi_from_modules(routes: &Vec<ApiRoute>, s: &FeaturesSettings) -> (r: RouteTable<Operation>)
    ensures
        r.wf(),
        forall|p: Seq<char>| #[trigger] r.methods_at(p) == documented(routes@, *s, p),
        forall|p: Seq<char>| #[trigger] r.has_path(p) ==> r.module_at(p) == documented_module(routes@, *s, p),
        forall|p: Seq<char>| route_disabled(s.disabled_routes@, p) ==> !#[trigger] r.has_path(p),
{
    let mut doc: RouteTable<Operation> = RouteTable::new();
    let mut i: usize = 0;
    while i < routes.len()
        invariant
            i <= routes@.len(),
            doc.wf(),
            forall|p: Seq<char>| #[trigger] doc.methods_at(p) == documented(routes@.take(i as int), *s, p),
            forall|p: Seq<char>| #[trigger] doc.has_path(p) ==> doc.module_at(p) == documented_module(routes@.take(i as int), *s, p),
        decreases routes@.len() - i,
    {
        let r = &routes[i];
        assert(routes@.take(i + 1).drop_last() =~= routes@.take(i as int));
        assert(routes@.take(i + 1).last() == routes@[i as int]);
        let ghost before = doc;
        if !is_route_disabled(&s.disabled_routes, r.path.as_str()) {
            let op = Operation {
                method: r.method,
                content_type: r.content_type.clone(),
                bearer: is_protected(s, r.path.as_str()),
                example: example_of(r.path.as_str()),
            };
            doc.add(r.path.as_str(), r.module.as_str(), r.method, op);
            assert forall|p: Seq<char>| #[trigger] doc.has_path(p) implies doc.module_at(p) == documented_module(routes@.take(i + 1), *s, p) by {
                if p != r.path@ {
                    assert(before.has_path(p));
                }
            }
        } else {
            assert forall|p: Seq<char>| #[trigger] doc.has_path(p) implies doc.module_at(p) == documented_module(routes@.take(i + 1), *s, p) by {
                assert(before.has_path(p));
                if p == r.path@ {
                    lemma_disabled_undocumented(routes@.take(i as int), *s, p);
                    assert(before.methods_at(p) == documented(routes@.take(i as int), *s, p));
                }
            }
        }
        i += 1;
    }
    assert(routes@.take(routes@.len() as int) =~= routes@);
    proof {
        assert forall|p: Seq<char>| route_disabled(s.disabled_routes@, p) implies !#[trigger] doc.has_path(p) by {
            lemma_disabled_undocumented(routes@, *s, p);
            assert(doc.methods_at(p) == documented(routes@, *s, p));
        }
    }
    doc
}

pub open spec fn summary_of(m: Method) -> Seq<char> {
    match m {
        Method::Get => "GET"@,
        Method::Post => "POST"@,
        Method::Put => "PUT"@,
        Method::Delete => "DELETE"@,
    }
}

pub open spec fn takes_body(m: Method) -> bool {
    m == Method::Post || m == Method::Put
}

/// The security requirements of an operation: the API key, and the bearer
/// token after it when the route is protected.
pub open spec fn security_matches(r: Json, bearer: bool) -> bool {
    match r.get_spec("security"@) {
        Some(Json::Array(items)) => {
            &&& items@.len() == if bearer { 2int } else { 1int }
            &&& items@[0].get_spec("apiKeyAuth"@) is Some
            &&& bearer ==> items@[1].get_spec("bearerAuth"@) is Some
        },
        _ => false,
    }
}

/// The parameters are one optional `X-Custom-Header` header.
pub open spec fn custom_header_parameter(r: Json) -> bool {
    match r.get_spec("parameters"@) {
        Some(Json::Array(ps)) => {
            &&& ps@.len() == 1
            &&& str_at(ps@[0], "name"@) == Some("X-Custom-Header"@)
            &&& str_at(ps@[0], "in"@) == Some("header"@)
            &&& ps@[0].get_spec("required"@) == Some(Json::Bool(false))
        },
        _ => false,
    }
}

/// The `200` response declares the operation's content type.
pub open spec fn response_declares(r: Json, content_type: Seq<char>) -> bool {
    match r.get_spec("responses"@) {
        Some(resp) => match resp.get_spec("200"@) {
            Some(ok) => match ok.get_spec("content"@) {
                Some(c) => c.get_spec(content_type) is Some,
                None => false,
            },
            None => false,
        },
        None => false,
    }
}

/// `j` is the operation object of `op`.
pub open spec fn op_matches(j: Json, op: Operation) -> bool {
    &&& str_at(j, "summary"@) == Some(summary_of(op.method))
    &&& custom_header_parameter(j)
    &&& security_matches(j, op.bearer)
    &&& (j.get_spec("requestBody"@) is Some <==> takes_body(op.method))
    &&& response_declares(j, op.content_type@)
}

fn one_member(k: &str, v: Json) -> (r: Json)
    ensures
        r.get_spec(k@) == Some(v),
{
    let entries: Vec<(String, Json)> = vec![(json_key(k), v)];
    proof {
        lemma_member_at(entries@, 0, k@);
    }
    Json::Object(entries)
}

fn scheme(name: &str) -> (r: Json)
    ensures
        r.get_spec(name@) is Some,
{
    one_member(name, Json::Array(Vec::new()))
}

fn example_json(e: &Example) -> Json {
    match e {
        Example::User => Json::Object(vec![
            (json_key("name"), json_text("John")),
            (json_key("age"), Json::Number(crate::json::JsonNumber::Unsigned(25))),
        ]),
        Example::Message => Json::Object(vec![
            (json_key("message"), json_text("Hello")),
            (json_key("language"), json_text("vi")),
        ]),
        Example::Generic => Json::Object(vec![(json_key("example"), json_text("value"))]),
    }
}

fn summary_text(m: Method) -> (r: &'static str)
    ensures
        r@ == summary_of(m),
{
    match m {
        Method::Get => "GET",
        Method::Post => "POST",
        Method::Put => "PUT",
        Method::Delete => "DELETE",
    }
}

/// The OpenAPI operation object of `op`: its summary, the optional
/// `X-Custom-Header` parameter, its security requirements, a JSON request
/// body with the route's example for methods that take a body, and a `200`
/// response of the declared content type.
pub fn operation_json(op: &Operation) -> (r: Json)
    ensures
        op_matches(r, *op),
{
    proof {
        reveal_strlit("summary");
        reveal_strlit("parameters");
        reveal_strlit("security");
        reveal_strlit("requestBody");
        reveal_strlit("responses");
        reveal_with_fuel(keys_differ, 6);
    }
    let param: Vec<(String, Json)> = vec![
        (json_key("name"), json_text("X-Custom-Header")),
        (json_key("in"), json_text("header")),
        (json_key("schema"), one_member("type", json_text("string"))),
        (json_key("required"), Json::Bool(false)),
    ];
    proof {
        reveal_strlit("name");
        reveal_strlit("in");
        reveal_strlit("schema");
        reveal_strlit("required");
        let pe = param@;
        assert(pe[0].0@ == "name"@);
        assert(pe[1].0@ == "in"@);
        assert(pe[2].0@ == "schema"@);
        assert(pe[3].0@ == "required"@);
        assert("name"@ != "in"@);
        assert("name"@ != "schema"@);
        assert("in"@ != "schema"@);
        assert("name"@ != "required"@);
        assert("in"@ != "required"@);
        assert("schema"@ != "required"@);
        lemma_member_at(pe, 0, "name"@);
        lemma_member_at(pe, 1, "in"@);
        lemma_member_at(pe, 3, "required"@);
    }
    let params: Vec<Json> = vec![Json::Object(param)];
    let mut security: Vec<Json> = vec![scheme("apiKeyAuth")];
    if op.bearer {
        security.push(scheme("bearerAuth"));
    }
    let content = one_member(op.content_type.as_str(), Json::Object(Vec::new()));
    let ok_entries: Vec<(String, Json)> = vec![
        (json_key("description"), json_text("OK")),
        (json_key("content"), content),
    ];
    proof {
        reveal_strlit("description");
        reveal_strlit("content");
        assert(ok_entries@[0].0@ == "description"@);
        assert(ok_entries@[1].0@ == "content"@);
        assert("description"@ != "content"@);
        lemma_member_at(ok_entries@, 1, "content"@);
    }
    let responses = one_member("200", Json::Object(ok_entries));
    let mut entries: Vec<(String, Json)> = vec![
        (json_key("summary"), json_text(summary_text(op.method))),
        (json_key("parameters"), Json::Array(params)),
        (json_key("security"), Json::Array(security)),
    ];
    if op.method == Method::Post || op.method == Method::Put {
        let media: Vec<(String, Json)> = vec![
            (json_key("schema"), one_member("type", json_text("object"))),
            (json_key("example"), example_json(&op.example)),
        ];
        let request = one_member("content", one_member("application/json", Json::Object(media)));
        entries.push((json_key("requestBody"), request));
    }
    entries.push((json_key("responses"), responses));
    proof {
        let e = entries@;
        assert(e[0].0@ == "summary"@);
        assert(e[1].0@ == "parameters"@);
        assert(e[2].0@ == "security"@);
        assert("summary"@ != "parameters"@);
        assert("summary"@ != "security"@);
        assert("parameters"@ != "security"@);
        assert("summary"@ != "requestBody"@);
        assert("parameters"@ != "requestBody"@);
        assert("security"@ != "requestBody"@);
        assert("summary"@ != "responses"@);
        assert("parameters"@ != "responses"@);
        assert("security"@ != "responses"@);
        assert("requestBody"@[2] != "responses"@[2]);
        assert("requestBody"@ != "responses"@);
        lemma_member_at(e, 0, "summary"@);
        lemma_member_at(e, 1, "parameters"@);
        lemma_member_at(e, 2, "security"@);
        if takes_body(op.method) {
            assert(e[3].0@ == "requestBody"@);
            assert(e[4].0@ == "responses"@);
            lemma_member_at(e, 3, "requestBody"@);
            lemma_member_at(e, 4, "responses"@);
        } else {
            assert(e.len() == 4);
            assert(e[3].0@ == "responses"@);
            lemma_member_at(e, 3, "responses"@);
            lemma_member_absent(e, "requestBody"@);
        }
    }
    Json::Object(entries)
}

pub open spec fn slot_matches(j: Option<Json>, op: Option<Operation>) -> bool {
    match op {
        Some(o) => match j {
            Some(x) => op_matches(x, o),
            None => false,
        },
        None => j is None,
    }
}

/// `j` is the path item of `route`: its module, and one operation object
/// for each method it serves.
pub open spec fn path_item_matches(j: Json, route: Route<Operation>) -> bool {
    &&& str_at(j, "x-module"@) == Some(route.module@)
    &&& slot_matches(j.get_spec("get"@), route.methods.get)
    &&& slot_matches(j.get_spec("post"@), route.methods.post)
    &&& slot_matches(j.get_spec("put"@), route.methods.put)
    &&& slot_matches(j.get_spec("delete"@), route.methods.delete)
}

fn push_operation(e: &mut Vec<(String, Json)>, k: &str, op: &Option<Operation>)
    ensures
        forall|key: Seq<char>| key != k@ ==> #[trigger] member(final(e)@, key) == member(old(e)@, key),
        member(old(e)@, k@) is None ==> slot_matches(member(final(e)@, k@), *op),
{
    match op {
        Some(o) => push_member(e, k, operation_json(o)),
        None => {},
    }
}

/// The path item of one route.
pub fn path_item(route: &Route<Operation>) -> (r: Json)
    ensures
        path_item_matches(r, *route),
{
    proof {
        reveal_strlit("x-module");
        reveal_strlit("get");
        reveal_strlit("post");
        reveal_strlit("put");
        reveal_strlit("delete");
        assert("x-module"@[0] != "get"@[0]);
        assert("x-module"@ != "get"@);
        assert("x-module"@[0] != "post"@[0]);
        assert("x-module"@ != "post"@);
        assert("x-module"@[0] != "put"@[0]);
        assert("x-module"@ != "put"@);
        assert("x-module"@[0] != "delete"@[0]);
        assert("x-module"@ != "delete"@);
        assert("get"@[0] != "post"@[0]);
        assert("get"@ != "post"@);
        assert("get"@[0] != "put"@[0]);
        assert("get"@ != "put"@);
        assert("get"@[0] != "delete"@[0]);
        assert("get"@ != "delete"@);
        assert("post"@[1] != "put"@[1]);
        assert("post"@ != "put"@);
        assert("post"@[0] != "delete"@[0]);
        assert("post"@ != "delete"@);
        assert("put"@[0] != "delete"@[0]);
        assert("put"@ != "delete"@);
    }
    let mut e: Vec<(String, Json)> = Vec::new();
    let m = Json::Str(route.module.clone());
    let ghost mv = m;
    push_member(&mut e, "x-module", m);
    let ghost e1 = e@;
    proof {
        assert(member(e1, "get"@) is None);
        assert(member(e1, "post"@) is None);
        assert(member(e1, "put"@) is None);
        assert(member(e1, "delete"@) is None);
        assert(member(e1, "x-module"@) == Some(mv));
    }
    push_operation(&mut e, "get", &route.methods.get);
    let ghost e2 = e@;
    proof {
        assert(member(e2, "x-module"@) == member(e1, "x-module"@));
        assert(member(e2, "post"@) == member(e1, "post"@));
        assert(member(e2, "put"@) == member(e1, "put"@));
        assert(member(e2, "delete"@) == member(e1, "delete"@));
    }
    push_operation(&mut e, "post", &route.methods.post);
    let ghost e3 = e@;
    proof {
        assert(member(e3, "x-module"@) == member(e2, "x-module"@));
        assert(member(e3, "get"@) == member(e2, "get"@));
        assert(member(e3, "put"@) == member(e2, "put"@));
        assert(member(e3, "delete"@) == member(e2, "delete"@));
    }
    push_operation(&mut e, "put", &route.methods.put);
    let ghost e4 = e@;
    proof {
        assert(member(e4, "x-module"@) == member(e3, "x-module"@));
        assert(member(e4, "get"@) == member(e3, "get"@));
        assert(member(e4, "post"@) == member(e3, "post"@));
        assert(member(e4, "delete"@) == member(e3, "delete"@));
    }
    push_operation(&mut e, "delete", &route.methods.delete);
    proof {
        assert(member(e@, "x-module"@) == member(e4, "x-module"@));
        assert(member(e@, "get"@) == member(e4, "get"@));
        assert(member(e@, "post"@) == member(e4, "post"@));
        assert(member(e@, "put"@) == member(e4, "put"@));
    }
    Json::Object(e)
}

pub open spec fn has_schemes(r: Json) -> bool {
    match r.get_spec("components"@) {
        Some(c) => match c.get_spec("securitySchemes"@) {
            Some(s) => s.get_spec("apiKeyAuth"@) is Some && s.get_spec("bearerAuth"@) is Some,
            None => false,
        },
        None => false,
    }
}

fn security_schemes() -> (r: Json)
    ensures
        r.get_spec("securitySchemes"@) matches Some(s) && s.get_spec("apiKeyAuth"@) is Some
            && s.get_spec("bearerAuth"@) is Some,
{
    proof {
        reveal_strlit("apiKeyAuth");
        reveal_strlit("bearerAuth");
        assert("apiKeyAuth"@[0] != "bearerAuth"@[0]);
    }
    let mut api: Vec<(String, Json)> = Vec::new();
    push_member(&mut api, "type", json_text("apiKey"));
    push_member(&mut api, "in", json_text("header"));
    push_member(&mut api, "name", json_text("Authorization"));
    let mut bearer: Vec<(String, Json)> = Vec::new();
    push_member(&mut bearer, "type", json_text("http"));
    push_member(&mut bearer, "scheme", json_text("bearer"));
    push_member(&mut bearer, "bearerFormat", json_text("JWT"));
    let mut schemes: Vec<(String, Json)> = Vec::new();
    push_member(&mut schemes, "apiKeyAuth", Json::Object(api));
    push_member(&mut schemes, "bearerAuth", Json::Object(bearer));
    one_member("securitySchemes", Json::Object(schemes))
}

/// The OpenAPI 3.0 document of a reflected route table: one path item per
/// route, in table order, and the API key and bearer security schemes.
pub fn openapi_document(doc: &RouteTable<Operation>) -> (r: Json)
    ensures
        str_at(r, "openapi"@) == Some("3.0.0"@),
        has_schemes(r),
        match r.get_spec("paths"@) {
            Some(Json::Object(ps)) => ps@.len() == doc.routes@.len() && forall|i: int|
                0 <= i < ps@.len() ==> (#[trigger] ps@[i]).0@ == doc.routes@[i].path@
                    && path_item_matches(ps@[i].1, doc.routes@[i]),
            _ => false,
        },
{
    let mut paths: Vec<(String, Json)> = Vec::new();
    let mut i: usize = 0;
    while i < doc.routes.len()
        invariant
            i <= doc.routes@.len(),
            paths@.len() == i,
            forall|k: int| 0 <= k < i ==> (#[trigger] paths@[k]).0@ == doc.routes@[k].path@
                && path_item_matches(paths@[k].1, doc.routes@[k]),
        decreases doc.routes@.len() - i,
    {
        let item = path_item(&doc.routes[i]);
        paths.push((doc.routes[i].path.clone(), item));
        i += 1;
    }
    proof {
        reveal_strlit("openapi");
        reveal_strlit("info");
        reveal_strlit("components");
        reveal_strlit("paths");
        assert("openapi"@[0] != "paths"@[0]);
        assert("info"@[0] != "paths"@[0]);
        assert("components"@[0] != "paths"@[0]);
        assert("openapi"@[0] != "info"@[0]);
        assert("openapi"@[0] != "components"@[0]);
        assert("info"@[0] != "components"@[0]);
    }
    let mut info: Vec<(String, Json)> = Vec::new();
    push_member(&mut info, "title", json_text("WebApp FastAPI RS"));
    push_member(&mut info, "version", json_text("1.0.0"));
    let ghost ps = paths;
    let mut top: Vec<(String, Json)> = Vec::new();
    push_member(&mut top, "openapi", json_text("3.0.0"));
    push_member(&mut top, "info", Json::Object(info));
    push_member(&mut top, "components", security_schemes());
    push_member(&mut top, "paths", Json::Object(paths));
    proof {
        assert(member(top@, "paths"@) == Some(Json::Object(ps)));
    }
    Json::Object(top)
}

} // verus!
