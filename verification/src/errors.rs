//! The service's errors and the plain HTTP answers built from them.

use crate::text::{chars_of, string_from_chars};
use vstd::prelude::*;

verus! {

/// An error of the service layer.
#[derive(Debug)]
pub enum AppError {
    /// The requested record does not exist.
    NotFound,
    /// A record with the same unique value exists already.
    DuplicateEntry(String),
    /// Something failed inside the service; the text says what.
    InternalError(String),
    /// The request did not pass validation.
    Validation(String),
    /// The database refused or failed a query; the text is its error.
    Database(String),
}

/// HTTP 404 Not Found.
pub const STATUS_NOT_FOUND: u16 = 404;

/// HTTP 500 Internal Server Error.
pub const STATUS_INTERNAL_ERROR: u16 = 500;

/// The answer for a route that does not exist: 404 and "Not found".
pub fn not_found_error() -> (r: (u16, String))
    ensures
        r.0 == STATUS_NOT_FOUND,
        r.1@ == "Not found"@,
{
    (STATUS_NOT_FOUND, string_from_chars(&chars_of("Not found")))
}

/// Any error, rendered as text, answered as 500.
pub fn internal_error(err: String) -> (r: (u16, String))
    ensures
        r.0 == STATUS_INTERNAL_ERROR,
        r.1 == err,
{
    (STATUS_INTERNAL_ERROR, err)
}

} // verus!
