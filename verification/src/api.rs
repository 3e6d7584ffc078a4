//! Errors as the HTTP surface reports them.

use vstd::prelude::*;

verus! {

/// A refused request: the status, a code for programs and a message for people.
#[derive(Debug)]
pub struct ApiError {
    pub status: u16,
    pub code: String,
    pub message: String,
}

/// The model of an [`ApiError`].
pub struct ErrorModel {
    pub status: u16,
    pub code: Seq<char>,
    pub message: Seq<char>,
}

impl View for ApiError {
    type V = ErrorModel;

    open spec fn view(&self) -> ErrorModel {
        ErrorModel { status: self.status, code: self.code@, message: self.message@ }
    }
}

/// An error with these parts.
pub open spec fn error(status: u16, code: Seq<char>, message: Seq<char>) -> ErrorModel {
    ErrorModel { status, code, message }
}

impl ApiError {
    /// An error with these parts.
    pub fn new(status: u16, code: &str, message: String) -> (r: ApiError)
        ensures
            r@ == error(status, code@, message@),
    {
        ApiError { status, code: code.to_owned(), message }
    }

    /// The server itself failed: `what`, and the cause behind a colon.
    pub fn internal(what: &str, cause: &str) -> (r: ApiError)
        ensures
            r@ == error(500, "internal"@, what@ + ": "@ + cause@),
    {
        let mut message: String = what.to_owned();
        message.append(": ");
        message.append(cause);
        ApiError::new(500, "internal", message)
    }
}

/// The model of an error is the error: its status, its code and its message.
pub proof fn an_error_is_seen_as_it_is(e: ApiError, status: u16, code: Seq<char>, message: Seq<char>)
    ensures
        e@ == error(status, code, message) <==> e.status == status && e.code@ == code && e.message@
            == message,
{
}

} // verus!
