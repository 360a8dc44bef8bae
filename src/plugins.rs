//! Handlers of the bundled sample modules that compute their payload
//! from plain values: greetings and static assets tagged by kind.
use vstd::prelude::*;
use crate::text::concat;

verus! {

pub const GREETING_HI: &'static str = "Hi there! 👋";

pub const GREETING_BYE: &'static str = "Goodbye! 👋";

pub const GREETINGS_PAGE: &'static str = "
    <!DOCTYPE html>
    <html>
    <head>
        <title>Greetings API</title>
        <style>
            body { font-family: Arial, sans-serif; margin: 40px; }
            .greeting { color: #2563eb; font-size: 24px; }
            .method { color: #059669; font-weight: bold; }
            .endpoint { background: #f3f4f6; padding: 4px 8px; border-radius: 4px; }
        </style>
    </head>
    <body>
        <h1 class=\"greeting\">Greetings API 🎉</h1>
        <p>FastAPI-like multi-method module example:</p>
        
        <h3>GET Routes:</h3>
        <ul>
            <li><span class=\"method\">GET</span> <code class=\"endpoint\">/greet/hi</code> - Text greeting</li>
            <li><span class=\"method\">GET</span> <code class=\"endpoint\">/greet/bye</code> - Goodbye text</li>
            <li><span class=\"method\">GET</span> <code class=\"endpoint\">/greet/info</code> - JSON info</li>
        </ul>
        
        <h3>POST/PUT/DELETE Routes:</h3>
        <ul>
            <li><span class=\"method\">POST</span> <code class=\"endpoint\">/greet/user</code> - Create user greeting</li>
            <li><span class=\"method\">PUT</span> <code class=\"endpoint\">/greet/message</code> - Update greeting message</li>
            <li><span class=\"method\">DELETE</span> <code class=\"endpoint\">/greet/reset</code> - Reset/clear data</li>
        </ul>
        
        <p><em>Try using curl or Postman to test the POST/PUT/DELETE endpoints with JSON body!</em></p>
    </body>
    </html>
    ";

/// The payload of `GET /greet/hi`.
pub fn greet_hi() -> (r: String)
    ensures
        r@ == GREETING_HI@,
{
    String::from_str(GREETING_HI)
}

/// The payload of `GET /greet/bye`.
pub fn greet_bye() -> (r: String)
    ensures
        r@ == GREETING_BYE@,
{
    String::from_str(GREETING_BYE)
}

/// The payload of `GET /greet/html`.
pub fn greet_html() -> (r: String)
    ensures
        r@ == GREETINGS_PAGE@,
{
    String::from_str(GREETINGS_PAGE)
}

/// A stylesheet tagged as CSS.
pub fn css_asset(content: &str) -> (r: String)
    ensures
        r@ == "css:"@ + content@,
{
    concat("css:", content)
}

/// A page tagged as HTML.
pub fn html_asset(content: &str) -> (r: String)
    ensures
        r@ == "html:"@ + content@,
{
    concat("html:", content)
}

/// A script tagged as JavaScript.
pub fn js_asset(content: &str) -> (r: String)
    ensures
        r@ == "js:"@ + content@,
{
    concat("js:", content)
}

/// A text file tagged as plain text.
pub fn text_asset(content: &str) -> (r: String)
    ensures
        r@ == "text:"@ + content@,
{
    concat("text:", content)
}

/// A document tagged as XML.
pub fn xml_asset(content: &str) -> (r: String)
    ensures
        r@ == "xml:"@ + content@,
{
    concat("xml:", content)
}

} // verus!
