//! The decisions of the application around a request: which error a request
//! ends in, and what its error page says.

use vstd::prelude::*;
use vstd::string::*;
use crate::http::error::HttpError;
use crate::support::text::{decimal, decimal_string};

verus! {

/// The settings of an application: its environment name, whether debugging is
/// on, and the address of the asset server, if any.
#[derive(Debug)]
pub struct Env {
    pub env: String,
    pub debug: bool,
    pub vite_url: Option<String>,
}

impl Env {
    pub fn new(env: String, debug: bool, vite_url: Option<String>) -> (e: Env)
        ensures
            e.env == env,
            e.debug == debug,
            e.vite_url == vite_url,
    {
        Env { env, debug, vite_url }
    }
}

/// Runs the futures of a server on the runtime's threads.
#[non_exhaustive]
#[derive(Default, Debug, Clone)]
pub struct TokioExecutor;

impl TokioExecutor {
    pub fn new() -> (e: Self)
        ensures
            e == (TokioExecutor {}),
    {
        Self {}
    }
}

/// The name of a status code that has one.
pub open spec fn status_text(code: u16) -> Option<Seq<char>> {
    if code == 400 {
        Some("Bad request"@)
    } else if code == 401 {
        Some("Forbidden"@)
    } else if code == 402 {
        Some("Payment required"@)
    } else if code == 403 {
        Some("Unauthorized"@)
    } else if code == 404 {
        Some("Not found"@)
    } else if code == 405 {
        Some("Method not allowed"@)
    } else if code == 409 {
        Some("Conflict"@)
    } else if code == 410 {
        Some("Gone"@)
    } else if code == 411 {
        Some("Length required"@)
    } else if code == 412 {
        Some("Precondition failed"@)
    } else if code == 413 {
        Some("Content too large"@)
    } else if code == 414 {
        Some("URI too long"@)
    } else if code == 415 {
        Some("Unsupported media type"@)
    } else if code == 416 {
        Some("Range not satisfiable"@)
    } else if code == 417 {
        Some("Expectation failed"@)
    } else if code == 418 {
        Some("I'm a teapot"@)
    } else if code == 421 {
        Some("Misdirected request"@)
    } else if code == 422 {
        Some("Unprocessable content"@)
    } else if code == 423 {
        Some("Locked"@)
    } else if code == 424 {
        Some("Failed dependency"@)
    } else if code == 425 {
        Some("Too early"@)
    } else if code == 426 {
        Some("Upgrade required"@)
    } else if code == 428 {
        Some("Precondition required"@)
    } else if code == 429 {
        Some("Too many requests"@)
    } else if code == 431 {
        Some("Request header fields too large"@)
    } else if code == 451 {
        Some("Unavailable for legal reasons"@)
    } else if 400 <= code && code <= 499 {
        Some("Client error"@)
    } else if code == 500 {
        Some("Server error"@)
    } else if code == 501 {
        Some("Not implemented"@)
    } else if code == 502 {
        Some("Bad gateway"@)
    } else if code == 503 {
        Some("Service unavailable"@)
    } else if code == 504 {
        Some("Gateway timeout"@)
    } else if code == 505 {
        Some("HTTP version not supported"@)
    } else if code == 506 {
        Some("Variant also negotiates"@)
    } else if code == 507 {
        Some("Insufficient storage"@)
    } else if code == 508 {
        Some("Loop detected"@)
    } else if code == 510 {
        Some("Not extended"@)
    } else if code == 511 {
        Some("Network authentication required"@)
    } else if 500 <= code && code <= 599 {
        Some("Something went wrong"@)
    } else {
        None
    }
}

/// What an error page says of a status code that the visitor is not told more of:
/// the code's name; for other codes from 400 to 499 "Client error"; from 500 to 599
/// "Something went wrong"; else "Unknown error (<code>).".
pub open spec fn error_text(code: u16) -> Seq<char> {
    match status_text(code) {
        Some(t) => t,
        None => "Unknown error ("@ + decimal(code as nat) + ")."@,
    }
}

/// Every status code from 400 to 599 has a name of its own or of its class, so
/// that an error page of a client or server error never reads "Unknown error".
pub proof fn lemma_error_statuses_are_named(code: u16)
    requires
        400 <= code <= 599,
    ensures
        status_text(code) is Some,
{
}

/// The names that error pages give the status codes: each named client and
/// server error reads as its own name; the other client errors read "Client
/// error", the other server errors "Something went wrong", and every code
/// outside 400 to 599 reads "Unknown error (<code>).".
pub proof fn lemma_error_page_names(code: u16)
    ensures
        error_text(400) == "Bad request"@,
        error_text(401) == "Forbidden"@,
        error_text(402) == "Payment required"@,
        error_text(403) == "Unauthorized"@,
        error_text(404) == "Not found"@,
        error_text(405) == "Method not allowed"@,
        error_text(409) == "Conflict"@,
        error_text(410) == "Gone"@,
        error_text(411) == "Length required"@,
        error_text(412) == "Precondition failed"@,
        error_text(413) == "Content too large"@,
        error_text(414) == "URI too long"@,
        error_text(415) == "Unsupported media type"@,
        error_text(416) == "Range not satisfiable"@,
        error_text(417) == "Expectation failed"@,
        error_text(418) == "I'm a teapot"@,
        error_text(421) == "Misdirected request"@,
        error_text(422) == "Unprocessable content"@,
        error_text(423) == "Locked"@,
        error_text(424) == "Failed dependency"@,
        error_text(425) == "Too early"@,
        error_text(426) == "Upgrade required"@,
        error_text(428) == "Precondition required"@,
        error_text(429) == "Too many requests"@,
        error_text(431) == "Request header fields too large"@,
        error_text(451) == "Unavailable for legal reasons"@,
        error_text(500) == "Server error"@,
        error_text(501) == "Not implemented"@,
        error_text(502) == "Bad gateway"@,
        error_text(503) == "Service unavailable"@,
        error_text(504) == "Gateway timeout"@,
        error_text(505) == "HTTP version not supported"@,
        error_text(506) == "Variant also negotiates"@,
        error_text(507) == "Insufficient storage"@,
        error_text(508) == "Loop detected"@,
        error_text(510) == "Not extended"@,
        error_text(511) == "Network authentication required"@,
        error_text(430) == "Client error"@,
        error_text(499) == "Client error"@,
        error_text(509) == "Something went wrong"@,
        error_text(599) == "Something went wrong"@,
        code < 400 || code > 599 ==> error_text(code) == "Unknown error ("@ + decimal(code as nat) + ")."@,
{
}

fn status_str(code: u16) -> (r: Option<&'static str>)
    ensures
        match r {
            Some(s) => status_text(code) == Some(s@),
            None => status_text(code) is None,
        },
{
    if code == 400 {
        Some("Bad request")
    } else if code == 401 {
        Some("Forbidden")
    } else if code == 402 {
        Some("Payment required")
    } else if code == 403 {
        Some("Unauthorized")
    } else if code == 404 {
        Some("Not found")
    } else if code == 405 {
        Some("Method not allowed")
    } else if code == 409 {
        Some("Conflict")
    } else if code == 410 {
        Some("Gone")
    } else if code == 411 {
        Some("Length required")
    } else if code == 412 {
        Some("Precondition failed")
    } else if code == 413 {
        Some("Content too large")
    } else if code == 414 {
        Some("URI too long")
    } else if code == 415 {
        Some("Unsupported media type")
    } else if code == 416 {
        Some("Range not satisfiable")
    } else if code == 417 {
        Some("Expectation failed")
    } else if code == 418 {
        Some("I'm a teapot")
    } else if code == 421 {
        Some("Misdirected request")
    } else if code == 422 {
        Some("Unprocessable content")
    } else if code == 423 {
        Some("Locked")
    } else if code == 424 {
        Some("Failed dependency")
    } else if code == 425 {
        Some("Too early")
    } else if code == 426 {
        Some("Upgrade required")
    } else if code == 428 {
        Some("Precondition required")
    } else if code == 429 {
        Some("Too many requests")
    } else if code == 431 {
        Some("Request header fields too large")
    } else if code == 451 {
        Some("Unavailable for legal reasons")
    } else if 400 <= code && code <= 499 {
        Some("Client error")
    } else if code == 500 {
        Some("Server error")
    } else if code == 501 {
        Some("Not implemented")
    } else if code == 502 {
        Some("Bad gateway")
    } else if code == 503 {
        Some("Service unavailable")
    } else if code == 504 {
        Some("Gateway timeout")
    } else if code == 505 {
        Some("HTTP version not supported")
    } else if code == 506 {
        Some("Variant also negotiates")
    } else if code == 507 {
        Some("Insufficient storage")
    } else if code == 508 {
        Some("Loop detected")
    } else if code == 510 {
        Some("Not extended")
    } else if code == 511 {
        Some("Network authentication required")
    } else if 500 <= code && code <= 599 {
        Some("Something went wrong")
    } else {
        None
    }
}

/// What an error page says of a status code.
pub fn error_message(code: u16) -> (m: String)
    ensures
        m@ == error_text(code),
{
    match status_str(code) {
        Some(s) => String::from_str(s),
        None => {
            let mut m = String::from_str("Unknown error (");
            let digits = decimal_string(code as u64);
            m.append(digits.as_str());
            m.append(").");
            m
        },
    }
}

/// What the error page for `error` says: in a local environment the error's own
/// message, else what is said of its status code.
pub fn error_page_message(is_local: bool, error: &HttpError) -> (m: String)
    ensures
        m@ == (if is_local { error@.1 } else { error_text(error@.0) }),
{
    if is_local {
        error.message()
    } else {
        error_message(error.code())
    }
}

/// Whether a request asks for JSON: its `Accept` header is exactly `application/json`.
pub fn wants_json(accept: Option<&str>) -> (b: bool)
    ensures
        b == (accept matches Some(a) && a@ == "application/json"@),
{
    match accept {
        Some(a) => crate::support::text::str_eq(a, "application/json"),
        None => false,
    }
}

/// The error for a path that no route matches.
pub fn not_found_error() -> (e: HttpError)
    ensures
        e@ == (404u16, "Page not found"@),
{
    HttpError::new(404, String::from_str("Page not found"))
}

/// The error for a request that no response came of: for JSON requests
/// "Endpoint not found.", else "Page not found.", both with status 404.
pub fn no_response_error(wants_json: bool) -> (e: HttpError)
    ensures
        e@ == (404u16, if wants_json { "Endpoint not found."@ } else { "Page not found."@ }),
{
    HttpError::new(
        404,
        String::from_str(
            if wants_json {
                "Endpoint not found."
            } else {
                "Page not found."
            },
        ),
    )
}

/// The error for a handler that panicked: status 500 with the panic's message,
/// or "Unknown panic." where it carried none.
pub fn panic_error(message: Option<String>) -> (e: HttpError)
    ensures
        e@ == (500u16, match message {
            Some(m) => m@,
            None => "Unknown panic."@,
        }),
{
    match message {
        Some(m) => HttpError::new(500, m),
        None => HttpError::new(500, String::from_str("Unknown panic.")),
    }
}

/// The route a lookup found, or the error the request ends in: the lookup's own
/// error, or 404 "Page not found" where no route matched.
pub fn found_or_not_found<T>(resolved: Result<Option<T>, HttpError>) -> (r: Result<T, HttpError>)
    ensures
        match resolved {
            Ok(Some(t)) => r == Ok::<T, HttpError>(t),
            Ok(None) => r matches Err(e) && e@ == (404u16, "Page not found"@),
            Err(e) => r == Err::<T, HttpError>(e),
        },
{
    match resolved {
        Ok(Some(t)) => Ok(t),
        Ok(None) => Err(not_found_error()),
        Err(e) => Err(e),
    }
}

/// How the handling of a request came out.
pub enum Outcome<R> {
    /// A response.
    Answered(R),
    /// An error.
    Failed(HttpError),
    /// Nothing at all.
    Unanswered,
    /// A panic, with its message where it carried one.
    Panicked(Option<String>),
}

/// What a request is answered with: the response it came to, or the error to
/// render and whether to render it as JSON. A failure is rendered as JSON
/// where the request asks for JSON; a request that came to nothing gets
/// `no_response_error`; a panic gets `panic_error`, rendered as a page.
pub fn settle<R>(outcome: Outcome<R>, wants_json: bool) -> (r: Result<R, (HttpError, bool)>)
    ensures
        match outcome {
            Outcome::Answered(response) => r == Ok::<R, (HttpError, bool)>(response),
            Outcome::Failed(e) => r == Err::<R, (HttpError, bool)>((e, wants_json)),
            Outcome::Unanswered => r matches Err((e, json)) && json == wants_json && e@ == (
                404u16,
                if wants_json { "Endpoint not found."@ } else { "Page not found."@ },
            ),
            Outcome::Panicked(message) => r matches Err((e, json)) && !json && e@ == (
                500u16,
                match message {
                    Some(m) => m@,
                    None => "Unknown panic."@,
                },
            ),
        },
{
    match outcome {
        Outcome::Answered(response) => Ok(response),
        Outcome::Failed(e) => Err((e, wants_json)),
        Outcome::Unanswered => Err((no_response_error(wants_json), wants_json)),
        Outcome::Panicked(message) => Err((panic_error(message), false)),
    }
}

} // verus!
