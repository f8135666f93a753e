//! Writing a response: the pages, the handlers and the routes to them.

use vstd::prelude::*;
use vstd::string::StringExecFns;
use crate::request::{
    is_request_line, lines_of, parse_request, request_line, route_of, target_of,
};
use crate::text::{contains_text, decimal, occurs_in, push_decimal, same_text};

verus! {

/// The page sent where no route matches.
pub const BODY_404: &'static str =
    "<!DOCTYPE html><html><head><title>Not found</title></head><body><h1>404</h1><p>Nothing here.</p></body></html>";

/// The front page.
pub const BODY_INDEX: &'static str =
    "<!DOCTYPE html><html><head><title>Hello</title></head><body><h1>Hello!</h1></body></html>";

/// The page with the carousel.
pub const CAROUSEL: &'static str =
    "<!DOCTYPE html><html><head><title>Carousel</title></head><body><h1>Carousel</h1></body></html>";

/// The page sent after a sleep.
pub const BODY_SLEEP: &'static str = "<html><h1>Sleeeeepy</h1></html>";

/// How long the sleepy route waits before it answers, in seconds.
pub const SLEEP_SECS: u64 = 10;

/// A response with the given status and body: the status line, the length
/// of the body in bytes, an empty line and the body.
pub open spec fn response_text(body: Seq<char>, length: nat, status: Seq<char>) -> Seq<char> {
    "HTTP/1.1 "@ + status + " \r\n"@ + "Content-Length: "@ + decimal(length) + "\r\n"@ + "\r\n"@
        + body
}

/// A response with the given status and body.
pub fn response(body: &str, status: &str) -> (text: String)
    ensures
        text@ == response_text(body@, body.len() as nat, status@),
{
    let mut text = String::from_str("HTTP/1.1 ");
    text.append(status);
    text.append(" \r\n");
    text.append("Content-Length: ");
    push_decimal(&mut text, body.len() as u64);
    text.append("\r\n");
    text.append("\r\n");
    text.append(body);
    text
}

/// The answer to a request for a path that has no route.
pub fn not_found(_path: &str) -> (text: String)
    ensures
        text@ == response_text(BODY_404@, BODY_404.len() as nat, "404 Not Found"@),
{
    response(BODY_404, "404 Not Found")
}

/// The answer of the sleepy route. The wait before it is the caller's.
pub fn get_sleep(_path: &str) -> (text: String)
    ensures
        text@ == response_text(BODY_SLEEP@, BODY_SLEEP.len() as nat, "200 Ok"@),
{
    response(BODY_SLEEP, "200 Ok")
}

/// The answer of the carousel route.
pub fn get_carousel(_path: &str) -> (text: String)
    ensures
        text@ == response_text(CAROUSEL@, CAROUSEL.len() as nat, "200  Ok"@),
{
    response(CAROUSEL, "200  Ok")
}

/// The answer of the front page.
pub fn get_index(_path: &str) -> (text: String)
    ensures
        text@ == response_text(BODY_INDEX@, BODY_INDEX.len() as nat, "200 Ok"@),
{
    response(BODY_INDEX, "200 Ok")
}

/// The pages that have a route.
#[derive(Clone, Copy, Debug, PartialEq, Eq, Structural)]
pub enum Handler {
    Index,
    Sleep,
    Carousel,
}

/// The handler the path `path` leads to, if it leads to one.
pub open spec fn handler_for(path: Seq<char>) -> Option<Handler> {
    if path == "/"@ {
        Some(Handler::Index)
    } else if path == "/sleep"@ {
        Some(Handler::Sleep)
    } else if path == "/carousel"@ {
        Some(Handler::Carousel)
    } else {
        None
    }
}

/// The answer to a request that leads to `handler`, or to none.
pub open spec fn answer_of(handler: Option<Handler>) -> Seq<char> {
    match handler {
        Some(Handler::Index) => response_text(BODY_INDEX@, BODY_INDEX.len() as nat, "200 Ok"@),
        Some(Handler::Sleep) => response_text(BODY_SLEEP@, BODY_SLEEP.len() as nat, "200 Ok"@),
        Some(Handler::Carousel) => response_text(CAROUSEL@, CAROUSEL.len() as nat, "200  Ok"@),
        None => response_text(BODY_404@, BODY_404.len() as nat, "404 Not Found"@),
    }
}

/// The seconds to wait before the answer to a request that leads to
/// `handler`, or to none, is sent.
pub open spec fn delay_of(handler: Option<Handler>) -> nat {
    match handler {
        Some(Handler::Sleep) => SLEEP_SECS as nat,
        _ => 0,
    }
}

impl Handler {
    /// The answer of this handler to a request for `path`.
    pub fn handle(&self, path: &str) -> (text: String)
        ensures
            text@ == answer_of(Some(*self)),
    {
        match self {
            Handler::Index => get_index(path),
            Handler::Sleep => get_sleep(path),
            Handler::Carousel => get_carousel(path),
        }
    }
}

/// The handler the path `path` leads to, if it leads to one.
pub fn route(path: &str) -> (handler: Option<Handler>)
    ensures
        handler == handler_for(path@),
{
    if same_text(path, "/") {
        Some(Handler::Index)
    } else if same_text(path, "/sleep") {
        Some(Handler::Sleep)
    } else if same_text(path, "/carousel") {
        Some(Handler::Carousel)
    } else {
        None
    }
}

/// What is sent back for a request, and how long to wait before sending it.
#[derive(Debug)]
pub struct Reply {
    pub delay_secs: u64,
    pub text: String,
}

/// Whether a body is to be read behind the header lines of `request`: the
/// first line holds `POST`.
pub fn expects_body(request: &[String]) -> (b: bool)
    requires
        request@.len() > 0,
    ensures
        b == occurs_in(request@[0]@, "POST"@),
{
    contains_text(request[0].as_str(), "POST")
}

/// The reply to `request`: the answer of the handler its path leads to, or
/// the page for a path that leads nowhere.
///
/// The first line must hold the three words of a request line.
pub fn respond(request: &[String]) -> (reply: Reply)
    requires
        is_request_line(request_line(lines_of(request@))),
    ensures
        ({
            let handler = handler_for(route_of(target_of(request_line(lines_of(request@)))));
            &&& reply.text@ == answer_of(handler)
            &&& reply.delay_secs == delay_of(handler)
        }),
{
    let parsed = parse_request(request);
    let path = parsed.route.as_str();
    match route(path) {
        Some(handler) => {
            let delay_secs = match handler {
                Handler::Sleep => SLEEP_SECS,
                _ => 0,
            };
            Reply { delay_secs, text: handler.handle(path) }
        },
        None => Reply { delay_secs: 0, text: not_found(path) },
    }
}

} // verus!
