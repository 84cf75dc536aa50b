//! Helpers for actions: the answers they give.

use vstd::prelude::*;
use crate::http::error::HttpError;

verus! {

/// What an action answers with.
#[derive(Debug)]
pub enum Responsable {
    /// A plain-text body.
    Text(String),
}

/// An answer of plain text.
pub fn text(string: String) -> (r: Result<Responsable, HttpError>)
    ensures
        r matches Ok(Responsable::Text(s)) && s == string,
{
    Ok(Responsable::Text(string))
}

} // verus!
