//! The tagged payload a handler returns, read into a status, a kind of
//! body and the body text.
//!
//! `error:<code>:<body>` sets the status and sends the body as JSON when
//! it parses, else as text; `status:<code>:<payload>` sets the status;
//! `html:`, `text:`, `js:`, `css:`, `xml:` and `json:` name the kind; any
//! other text is JSON when it starts with `{` or `[` and HTML otherwise.
use vstd::prelude::*;
use crate::text::{
    before_sep, chars_of, has_char, parse_u16, parse_u16_spec, seq_starts_with, skip_chars,
    split_once, starts_with, string_of, trim, trim_seq, trim_start, trim_start_seq,
};

verus! {

/// The kind of a response body; each has its own content type.
pub enum BodyKind {
    Html,
    Text,
    Js,
    Css,
    Xml,
    /// JSON text, sent as `null` when it does not parse.
    Json,
}

impl BodyKind {
    pub open spec fn content_type_spec(self) -> Seq<char> {
        match self {
            BodyKind::Html => "text/html; charset=utf-8"@,
            BodyKind::Text => "text/plain; charset=utf-8"@,
            BodyKind::Js => "application/javascript; charset=utf-8"@,
            BodyKind::Css => "text/css; charset=utf-8"@,
            BodyKind::Xml => "application/xml; charset=utf-8"@,
            BodyKind::Json => "application/json"@,
        }
    }

    /// The `Content-Type` a body of this kind is sent with.
    pub fn content_type(&self) -> (r: &'static str)
        ensures
            r@ == self.content_type_spec(),
    {
        match self {
            BodyKind::Html => "text/html; charset=utf-8",
            BodyKind::Text => "text/plain; charset=utf-8",
            BodyKind::Js => "application/javascript; charset=utf-8",
            BodyKind::Css => "text/css; charset=utf-8",
            BodyKind::Xml => "application/xml; charset=utf-8",
            BodyKind::Json => "application/json",
        }
    }
}

/// A response: status code, kind and body text.
pub struct Framed {
    pub status: u16,
    pub kind: BodyKind,
    pub body: String,
}

pub open spec fn valid_status(code: u16) -> bool {
    100 <= code <= 999
}

/// Relies on `http::StatusCode::from_u16`: codes from 100 to 999 are valid.
#[verifier::external_body]
fn status_ok(code: u16) -> (r: bool)
    ensures
        r == valid_status(code),
{
    http::StatusCode::from_u16(code).is_ok()
}

/// Whether `serde_json` reads `s` as one JSON document.
pub uninterp spec fn json_text_valid(s: Seq<char>) -> bool;

/// Relies on `serde_json::from_str`: the verdict depends on the text alone.
#[verifier::external_body]
fn parses_as_json(s: &str) -> (r: bool)
    ensures
        r == json_text_valid(s@),
{
    serde_json::from_str::<serde_json::Value>(s).is_ok()
}

/// The body of an `error:` payload, given what follows `error:`.
pub open spec fn error_body(rest: Seq<char>) -> Seq<char> {
    if has_char(rest, ':') {
        rest.skip(before_sep(rest, ':').len() as int + 1)
    } else {
        rest
    }
}

/// The status a code text names, or `default` when it names none.
pub open spec fn status_or(code: Seq<char>, default: u16) -> u16 {
    match parse_u16_spec(trim_seq(code)) {
        Some(n) => if valid_status(n) {
            n
        } else {
            default
        },
        None => default,
    }
}

pub open spec fn looks_like_json(s: Seq<char>) -> bool {
    let t = trim_start_seq(s);
    t.len() > 0 && (t[0] == '{' || t[0] == '[')
}

/// The kind and body a payload names, without a status prefix.
pub open spec fn tagged(text: Seq<char>) -> (BodyKind, Seq<char>) {
    if starts_with(text, "html:"@) {
        (BodyKind::Html, text.skip(5))
    } else if starts_with(text, "text:"@) {
        (BodyKind::Text, text.skip(5))
    } else if starts_with(text, "js:"@) {
        (BodyKind::Js, text.skip(3))
    } else if starts_with(text, "css:"@) {
        (BodyKind::Css, text.skip(4))
    } else if starts_with(text, "xml:"@) {
        (BodyKind::Xml, text.skip(4))
    } else if starts_with(text, "json:"@) {
        (BodyKind::Json, text.skip(5))
    } else if looks_like_json(text) {
        (BodyKind::Json, text)
    } else {
        (BodyKind::Html, text)
    }
}

/// The status, kind and body of a whole payload; `error_json` says whether
/// the body of an `error:` payload parses as JSON.
pub open spec fn framing(text: Seq<char>, error_json: bool) -> (u16, BodyKind, Seq<char>) {
    if starts_with(text, "error:"@) {
        let rest = text.skip(6);
        let code = if has_char(rest, ':') {
            before_sep(rest, ':')
        } else {
            "500"@
        };
        let body = error_body(rest);
        let status = status_or(code, 500);
        if error_json {
            (status, BodyKind::Json, body)
        } else {
            (status, BodyKind::Text, body)
        }
    } else if starts_with(text, "status:"@) {
        let rest = text.skip(7);
        let status = if has_char(rest, ':') {
            status_or(before_sep(rest, ':'), 200)
        } else {
            200
        };
        let payload = if has_char(rest, ':') {
            rest.skip(before_sep(rest, ':').len() as int + 1)
        } else {
            Seq::empty()
        };
        (status, tagged(payload).0, tagged(payload).1)
    } else {
        (200, tagged(text).0, tagged(text).1)
    }
}

fn prefix(text: &Vec<char>, p: &str) -> (r: bool)
    ensures
        r == starts_with(text@, p@),
{
    let pv = chars_of(p);
    seq_starts_with(text, &pv)
}

fn json_like(text: &Vec<char>) -> (r: bool)
    ensures
        r == looks_like_json(text@),
{
    let s = string_of(text);
    let t = chars_of(trim_start(s.as_str()));
    t.len() > 0 && (t[0] == '{' || t[0] == '[')
}

fn status_of(code: &Vec<char>, default: u16) -> (r: u16)
    ensures
        r == status_or(code@, default),
{
    let s = string_of(code);
    match parse_u16(trim(s.as_str())) {
        Some(n) => if status_ok(n) {
            n
        } else {
            default
        },
        None => default,
    }
}

fn tagged_exec(text: &Vec<char>) -> (r: (BodyKind, Vec<char>))
    ensures
        r.0 == tagged(text@).0,
        r.1@ == tagged(text@).1,
{
    proof {
        reveal_strlit("html:");
        reveal_strlit("text:");
        reveal_strlit("js:");
        reveal_strlit("css:");
        reveal_strlit("xml:");
        reveal_strlit("json:");
    }
    if prefix(text, "html:") {
        (BodyKind::Html, skip_chars(text, 5))
    } else if prefix(text, "text:") {
        (BodyKind::Text, skip_chars(text, 5))
    } else if prefix(text, "js:") {
        (BodyKind::Js, skip_chars(text, 3))
    } else if prefix(text, "css:") {
        (BodyKind::Css, skip_chars(text, 4))
    } else if prefix(text, "xml:") {
        (BodyKind::Xml, skip_chars(text, 4))
    } else if prefix(text, "json:") {
        (BodyKind::Json, skip_chars(text, 5))
    } else if json_like(text) {
        (BodyKind::Json, skip_chars(text, 0))
    } else {
        (BodyKind::Html, skip_chars(text, 0))
    }
}

/// Reads a handler's payload `text` with the status given.
pub fn to_response_with_status(text: &str, status: u16) -> (r: Framed)
    ensures
        r.status == status,
        r.kind == tagged(text@).0,
        r.body@ == tagged(text@).1,
{
    let v = chars_of(text);
    let (kind, body) = tagged_exec(&v);
    Framed { status, kind, body: string_of(&body) }
}

/// Whether a payload is an `error:` payload whose body parses as JSON.
pub open spec fn error_json_spec(text: Seq<char>) -> bool {
    starts_with(text, "error:"@) && json_text_valid(error_body(text.skip(6)))
}

/// Reads a handler's whole payload: status prefix, kind and body.
pub fn to_response(text: &str) -> (r: Framed)
    ensures
        r.status == framing(text@, error_json_spec(text@)).0,
        r.kind == framing(text@, error_json_spec(text@)).1,
        r.body@ == framing(text@, error_json_spec(text@)).2,
{
    proof {
        reveal_strlit("error:");
    }
    let v = chars_of(text);
    let error_json = if prefix(&v, "error:") {
        let rest = skip_chars(&v, 6);
        let body = match split_once(&rest, ':') {
            Some((_, b)) => b,
            None => rest,
        };
        let bs = string_of(&body);
        parses_as_json(bs.as_str())
    } else {
        false
    };
    frame_payload(text, error_json)
}

/// Reads a handler's whole payload, given whether the body of an `error:`
/// payload parses as JSON.
pub fn frame_payload(text: &str, error_body_is_json: bool) -> (r: Framed)
    ensures
        r.status == framing(text@, error_body_is_json).0,
        r.kind == framing(text@, error_body_is_json).1,
        r.body@ == framing(text@, error_body_is_json).2,
{
    proof {
        reveal_strlit("error:");
        reveal_strlit("status:");
        reveal_strlit("500");
    }
    let v = chars_of(text);
    if prefix(&v, "error:") {
        let rest = skip_chars(&v, 6);
        let (code, body) = match split_once(&rest, ':') {
            Some((c, b)) => (c, b),
            None => (chars_of("500"), rest),
        };
        let status = status_of(&code, 500);
        let kind = if error_body_is_json {
            BodyKind::Json
        } else {
            BodyKind::Text
        };
        return Framed { status, kind, body: string_of(&body) };
    }
    if prefix(&v, "status:") {
        let rest = skip_chars(&v, 7);
        let (status, payload) = match split_once(&rest, ':') {
            Some((c, b)) => (status_of(&c, 200), b),
            None => (200u16, Vec::new()),
        };
        let (kind, body) = tagged_exec(&payload);
        return Framed { status, kind, body: string_of(&body) };
    }
    let (kind, body) = tagged_exec(&v);
    Framed { status: 200, kind, body: string_of(&body) }
}

} // verus!
