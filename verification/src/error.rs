//! The error answer of the HTTP API.

use vstd::prelude::*;

verus! {

/// An error that a request is answered with: an internal error (status
/// 500) or one with its own HTTP status; the body is the message and a
/// newline.
#[derive(Debug)]
pub enum ErrorResponse {
    Internal(String),
    Http(u16, String),
}

/// What an error answer says: its status and its message.
pub struct ErrorResponseView {
    pub status: u16,
    pub message: Seq<char>,
}

impl View for ErrorResponse {
    type V = ErrorResponseView;

    open spec fn view(&self) -> ErrorResponseView {
        match self {
            ErrorResponse::Internal(m) => ErrorResponseView { status: 500, message: m@ },
            ErrorResponse::Http(s, m) => ErrorResponseView { status: *s, message: m@ },
        }
    }
}

impl ErrorResponse {
    /// A 403 Forbidden answer.
    pub fn forbidden(inner: String) -> (r: Self)
        ensures
            r@ == (ErrorResponseView { status: 403, message: inner@ }),
    {
        ErrorResponse::Http(403, inner)
    }

    /// A 401 Unauthorized answer.
    pub fn unauthorized(inner: String) -> (r: Self)
        ensures
            r@ == (ErrorResponseView { status: 401, message: inner@ }),
    {
        ErrorResponse::Http(401, inner)
    }

    /// An internal error (500).
    pub fn internal(inner: String) -> (r: Self)
        ensures
            r@ == (ErrorResponseView { status: 500, message: inner@ }),
            r is Internal,
    {
        ErrorResponse::Internal(inner)
    }

    /// The HTTP status of the answer.
    pub fn status(&self) -> (r: u16)
        ensures
            r == self@.status,
    {
        match self {
            ErrorResponse::Internal(_) => 500,
            ErrorResponse::Http(s, _) => *s,
        }
    }

    /// The body of the answer: the message followed by a newline.
    pub fn body(&self) -> (r: String)
        ensures
            r@ == self@.message.push('\n'),
    {
        let m = match self {
            ErrorResponse::Internal(m) => m,
            ErrorResponse::Http(_, m) => m,
        };
        let mut b = m.clone();
        crate::text::string_push(&mut b, '\n');
        b
    }
}

} // verus!
