//! The error that a request handler answers with.

use vstd::prelude::*;
use vstd::string::*;
use crate::support::text::{decimal, decimal_string};

verus! {

/// An HTTP status code together with a message.
#[derive(Debug, Clone)]
pub struct HttpError {
    code: u16,
    message: String,
}

impl View for HttpError {
    type V = (u16, Seq<char>);

    closed spec fn view(&self) -> (u16, Seq<char>) {
        (self.code, self.message@)
    }
}

/// The text that an `HttpError` displays as: `Http error [<code>]: <message>`.
pub open spec fn http_error_text(code: u16, message: Seq<char>) -> Seq<char> {
    "Http error ["@ + decimal(code as nat) + "]: "@ + message
}

impl HttpError {
    pub fn new(code: u16, message: String) -> (e: HttpError)
        ensures
            e@ == (code, message@),
    {
        HttpError { code, message }
    }

    pub fn code(&self) -> (c: u16)
        ensures
            c == self@.0,
    {
        self.code
    }

    pub fn message(&self) -> (m: String)
        ensures
            m@ == self@.1,
    {
        self.message.clone()
    }

    /// The displayed form of the error: `Http error [<code>]: <message>`.
    pub fn to_string(&self) -> (s: String)
        ensures
            s@ == http_error_text(self@.0, self@.1),
    {
        let mut s = String::from_str("Http error [");
        let code = decimal_string(self.code as u64);
        s.append(code.as_str());
        s.append("]: ");
        s.append(self.message.as_str());
        s
    }
}

} // verus!
