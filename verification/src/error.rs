//! The errors that the store answers with.

use vstd::prelude::*;

verus! {

/// An error with the message for the caller.
#[derive(Debug, PartialEq, Eq)]
pub enum ApiError {
    BadRequest(String),
    NotFound(String),
    Conflict(String),
    Internal(String),
}

/// An error by kind and message.
pub enum ErrorView {
    BadRequest(Seq<char>),
    NotFound(Seq<char>),
    Conflict(Seq<char>),
    Internal(Seq<char>),
}

impl View for ApiError {
    type V = ErrorView;

    open spec fn view(&self) -> ErrorView {
        match *self {
            ApiError::BadRequest(m) => ErrorView::BadRequest(m@),
            ApiError::NotFound(m) => ErrorView::NotFound(m@),
            ApiError::Conflict(m) => ErrorView::Conflict(m@),
            ApiError::Internal(m) => ErrorView::Internal(m@),
        }
    }
}

impl ApiError {
    pub fn bad_request(message: &str) -> (r: ApiError)
        ensures
            r@ == ErrorView::BadRequest(message@),
    {
        ApiError::BadRequest(message.to_owned())
    }

    pub fn not_found(message: &str) -> (r: ApiError)
        ensures
            r@ == ErrorView::NotFound(message@),
    {
        ApiError::NotFound(message.to_owned())
    }

    pub fn conflict(message: &str) -> (r: ApiError)
        ensures
            r@ == ErrorView::Conflict(message@),
    {
        ApiError::Conflict(message.to_owned())
    }

    pub fn internal(message: &str) -> (r: ApiError)
        ensures
            r@ == ErrorView::Internal(message@),
    {
        ApiError::Internal(message.to_owned())
    }
}

/// Whether `r` is the error `e`.
pub open spec fn fails_with<T>(r: Result<T, ApiError>, e: ErrorView) -> bool {
    match r {
        Ok(_) => false,
        Err(error) => error@ == e,
    }
}

} // verus!
