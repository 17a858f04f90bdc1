//! Error types of the API.
//!
//! Every rejection carries a stable code, so that clients can branch on it.

use crate::text::concat2;
use vstd::prelude::*;
use vstd::string::*;

verus! {

#[derive(Debug)]
pub enum ApiError {
    BadRequest(String),
    Unauthorized,
    Forbidden(String),
    NotFound(String),
    Conflict(String),
    /// The scheduler could not place the sandbox. `reason` is a stable code.
    NoCapacity { reason: String, detail: String },
    Rejected(String),
    /// A failure that is not the caller's; the text is for the log only.
    Internal(String),
}

/// What an [`ApiError`] says, by the views of its texts.
pub enum ErrorView {
    BadRequest(Seq<char>),
    Unauthorized,
    Forbidden(Seq<char>),
    NotFound(Seq<char>),
    Conflict(Seq<char>),
    NoCapacity(Seq<char>, Seq<char>),
    Rejected(Seq<char>),
    Internal(Seq<char>),
}

impl View for ApiError {
    type V = ErrorView;

    open spec fn view(&self) -> ErrorView {
        match self {
            ApiError::BadRequest(m) => ErrorView::BadRequest(m@),
            ApiError::Unauthorized => ErrorView::Unauthorized,
            ApiError::Forbidden(m) => ErrorView::Forbidden(m@),
            ApiError::NotFound(m) => ErrorView::NotFound(m@),
            ApiError::Conflict(m) => ErrorView::Conflict(m@),
            ApiError::NoCapacity { reason, detail } => ErrorView::NoCapacity(reason@, detail@),
            ApiError::Rejected(m) => ErrorView::Rejected(m@),
            ApiError::Internal(m) => ErrorView::Internal(m@),
        }
    }
}

pub type ApiResult<T> = Result<T, ApiError>;

/// The stable code of an error.
pub open spec fn code_of(e: ErrorView) -> Seq<char> {
    match e {
        ErrorView::BadRequest(_) => "bad_request"@,
        ErrorView::Unauthorized => "unauthorized"@,
        ErrorView::Forbidden(_) => "forbidden"@,
        ErrorView::NotFound(_) => "not_found"@,
        ErrorView::Conflict(_) => "conflict"@,
        ErrorView::NoCapacity(_, _) => "no_capacity"@,
        ErrorView::Rejected(_) => "rejected"@,
        ErrorView::Internal(_) => "internal"@,
    }
}

/// The HTTP status of an error. Capacity is a transient, retryable condition.
pub open spec fn status_of(e: ErrorView) -> u16 {
    match e {
        ErrorView::BadRequest(_) => 400,
        ErrorView::Unauthorized => 401,
        ErrorView::Forbidden(_) => 403,
        ErrorView::NotFound(_) => 404,
        ErrorView::Conflict(_) => 409,
        ErrorView::NoCapacity(_, _) => 503,
        ErrorView::Rejected(_) => 422,
        ErrorView::Internal(_) => 500,
    }
}

/// The text a client sees. An internal failure is not explained to clients.
pub open spec fn message_of(e: ErrorView) -> Seq<char> {
    match e {
        ErrorView::BadRequest(m) => m,
        ErrorView::Unauthorized => "unauthorized"@,
        ErrorView::Forbidden(m) => "forbidden: "@ + m,
        ErrorView::NotFound(m) => m + " not found"@,
        ErrorView::Conflict(m) => "conflict: "@ + m,
        ErrorView::NoCapacity(_, detail) => detail,
        ErrorView::Rejected(m) => "rejected: "@ + m,
        ErrorView::Internal(_) => "internal server error"@,
    }
}

impl ApiError {
    pub fn code(&self) -> (r: &'static str)
        ensures
            r@ == code_of(self@),
    {
        match self {
            ApiError::BadRequest(_) => "bad_request",
            ApiError::Unauthorized => "unauthorized",
            ApiError::Forbidden(_) => "forbidden",
            ApiError::NotFound(_) => "not_found",
            ApiError::Conflict(_) => "conflict",
            ApiError::NoCapacity { .. } => "no_capacity",
            ApiError::Rejected(_) => "rejected",
            ApiError::Internal(_) => "internal",
        }
    }

    /// The HTTP status code.
    pub fn status(&self) -> (r: u16)
        ensures
            r == status_of(self@),
    {
        match self {
            ApiError::BadRequest(_) => 400,
            ApiError::Unauthorized => 401,
            ApiError::Forbidden(_) => 403,
            ApiError::NotFound(_) => 404,
            ApiError::Conflict(_) => 409,
            ApiError::NoCapacity { .. } => 503,
            ApiError::Rejected(_) => 422,
            ApiError::Internal(_) => 500,
        }
    }

    /// The text for the response body.
    pub fn message(&self) -> (r: String)
        ensures
            r@ == message_of(self@),
    {
        match self {
            ApiError::BadRequest(m) => m.clone(),
            ApiError::Unauthorized => String::from_str("unauthorized"),
            ApiError::Forbidden(m) => concat2("forbidden: ", m.as_str()),
            ApiError::NotFound(m) => concat2(m.as_str(), " not found"),
            ApiError::Conflict(m) => concat2("conflict: ", m.as_str()),
            ApiError::NoCapacity { detail, .. } => detail.clone(),
            ApiError::Rejected(m) => concat2("rejected: ", m.as_str()),
            ApiError::Internal(_) => String::from_str("internal server error"),
        }
    }

    /// The machine-readable reason, which only capacity errors carry.
    pub fn reason(&self) -> (r: Option<String>)
        ensures
            (match r {
                Some(s) => Some(s@),
                None => None,
            }) == (match self@ {
                ErrorView::NoCapacity(reason, _) => Some(reason),
                _ => None,
            }),
    {
        match self {
            ApiError::NoCapacity { reason, .. } => Some(reason.clone()),
            _ => None,
        }
    }
}

/// Turn a message into a `BadRequest`.
pub fn bad_request(msg: &str) -> (r: ApiError)
    ensures
        r@ == ErrorView::BadRequest(msg@),
{
    ApiError::BadRequest(String::from_str(msg))
}

/// Two errors that differ only in what happened internally look the same to the
/// client.
pub proof fn law_internal_errors_do_not_leak(a: Seq<char>, b: Seq<char>)
    ensures
        message_of(ErrorView::Internal(a)) == message_of(ErrorView::Internal(b)),
        code_of(ErrorView::Internal(a)) == code_of(ErrorView::Internal(b)),
        status_of(ErrorView::Internal(a)) == status_of(ErrorView::Internal(b)),
{
}

} // verus!
