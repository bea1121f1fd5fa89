//! Routing of inbound requests to client operations, and the replies sent
//! back for their results.
use vstd::prelude::*;
use vstd::string::StringExecFns;
use crate::text::same_text;

verus! {

/// The operation an inbound request asks for.
#[derive(PartialEq, Eq, Structural, Clone, Copy, Debug)]
pub enum Route {
    Metrics,
    Login,
    Expires,
    Config,
    RefreshConfig,
    Health,
    Unknown,
}

/// The operation for a method and path: each known path under `GET`,
/// anything else unknown.
pub open spec fn route_of(method: Seq<char>, path: Seq<char>) -> Route {
    if method != "GET"@ {
        Route::Unknown
    } else if path == "/metrics"@ {
        Route::Metrics
    } else if path == "/login"@ {
        Route::Login
    } else if path == "/expires"@ {
        Route::Expires
    } else if path == "/config"@ {
        Route::Config
    } else if path == "/refresh_config"@ {
        Route::RefreshConfig
    } else if path == "/health"@ {
        Route::Health
    } else {
        Route::Unknown
    }
}

/// Picks the operation for an inbound request.
pub fn route(method: &str, path: &str) -> (r: Route)
    ensures
        r == route_of(method@, path@),
{
    if !same_text(method, "GET") {
        Route::Unknown
    } else if same_text(path, "/metrics") {
        Route::Metrics
    } else if same_text(path, "/login") {
        Route::Login
    } else if same_text(path, "/expires") {
        Route::Expires
    } else if same_text(path, "/config") {
        Route::Config
    } else if same_text(path, "/refresh_config") {
        Route::RefreshConfig
    } else if same_text(path, "/health") {
        Route::Health
    } else {
        Route::Unknown
    }
}

/// An HTTP status and body.
pub struct Reply {
    pub status: u16,
    pub body: String,
}

/// The body that reports a failed operation.
pub open spec fn error_text(message: Seq<char>) -> Seq<char> {
    "{\"error\" : \""@ + message + "\"}"@
}

/// The body that answers a request for no known operation.
pub open spec fn unknown_text(method: Seq<char>, path: Seq<char>) -> Seq<char> {
    "{ \"msg\" : \""@ + method + " "@ + path + " is not a recognized action\" }"@
}

/// The status of a successful operation: a health report other than
/// `Healthy` is 503, everything else 200.
pub open spec fn success_status(route: Route, body: Seq<char>) -> u16 {
    if route == Route::Health && body != "Healthy"@ {
        503
    } else {
        200
    }
}

/// The reply to a failed operation: 500 with the message in a JSON envelope.
pub fn error_reply(message: &str) -> (r: Reply)
    ensures
        r.status == 500,
        r.body@ == error_text(message@),
{
    let body = String::from_str("{\"error\" : \"").concat(message).concat("\"}");
    Reply { status: 500, body }
}

/// The reply to a request for no known operation: 200, not 404, with a
/// message naming the method and path.
pub fn unknown_reply(method: &str, path: &str) -> (r: Reply)
    ensures
        r.status == 200,
        r.body@ == unknown_text(method@, path@),
{
    let body = String::from_str("{ \"msg\" : \"").concat(method).concat(" ").concat(path).concat(
        " is not a recognized action\" }",
    );
    Reply { status: 200, body }
}

/// The reply to a successful operation: its text as the body.
pub fn success_reply(route: Route, body: String) -> (r: Reply)
    ensures
        r.status == success_status(route, body@),
        r.body@ == body@,
{
    let status: u16 = if route == Route::Health && !same_text(body.as_str(), "Healthy") {
        503
    } else {
        200
    };
    Reply { status, body }
}

/// The reply to a routed request: the not-recognized message for an unknown
/// operation, else the operation's text, or its failure as a 500.
pub fn reply_for(route: Route, method: &str, path: &str, result: Result<String, String>) -> (r: Reply)
    ensures
        route == Route::Unknown ==> r.status == 200 && r.body@ == unknown_text(method@, path@),
        route != Route::Unknown ==> match result {
            Ok(body) => r.status == success_status(route, body@) && r.body@ == body@,
            Err(message) => r.status == 500 && r.body@ == error_text(message@),
        },
{
    if route == Route::Unknown {
        unknown_reply(method, path)
    } else {
        match result {
            Ok(body) => success_reply(route, body),
            Err(message) => error_reply(message.as_str()),
        }
    }
}

} // verus!
