//! The errors that requests fail with, and what each is answered with.

use crate::text::owned;
use vstd::prelude::*;
use vstd::string::StringExecFns;

verus! {

pub type AppResult<T> = Result<T, AppError>;

#[derive(Debug)]
pub enum AppError {
    /// The request itself is wrong: it is refused before anything is changed.
    BadRequest(String),
    Unauthorized,
    /// What the request names does not exist, or no longer does.
    NotFound(String),
    Conflict(String),
    /// Something failed that the client cannot mend.
    Internal,
}

pub enum AppErrorView {
    BadRequest(Seq<char>),
    Unauthorized,
    NotFound(Seq<char>),
    Conflict(Seq<char>),
    Internal,
}

impl View for AppError {
    type V = AppErrorView;

    open spec fn view(&self) -> AppErrorView {
        match self {
            AppError::BadRequest(message) => AppErrorView::BadRequest(message@),
            AppError::Unauthorized => AppErrorView::Unauthorized,
            AppError::NotFound(message) => AppErrorView::NotFound(message@),
            AppError::Conflict(message) => AppErrorView::Conflict(message@),
            AppError::Internal => AppErrorView::Internal,
        }
    }
}

/// The status, the error code and the message that an error is answered with.
pub struct ErrorResponse {
    pub status: u16,
    pub error: String,
    pub message: String,
}

impl AppErrorView {
    /// The error in words.
    pub open spec fn text(self) -> Seq<char> {
        match self {
            AppErrorView::BadRequest(message) => "bad request: "@ + message,
            AppErrorView::Unauthorized => "unauthorized"@,
            AppErrorView::NotFound(message) => "not found: "@ + message,
            AppErrorView::Conflict(message) => "conflict: "@ + message,
            AppErrorView::Internal => "internal server error"@,
        }
    }

    /// The status that the error is answered with.
    pub open spec fn status(self) -> u16 {
        match self {
            AppErrorView::BadRequest(_) => 400,
            AppErrorView::Unauthorized => 401,
            AppErrorView::NotFound(_) => 404,
            AppErrorView::Conflict(_) => 409,
            AppErrorView::Internal => 500,
        }
    }

    /// The code that names the kind of the error in the answer.
    pub open spec fn code(self) -> Seq<char> {
        match self {
            AppErrorView::BadRequest(_) => "bad_request"@,
            AppErrorView::Unauthorized => "unauthorized"@,
            AppErrorView::NotFound(_) => "not_found"@,
            AppErrorView::Conflict(_) => "conflict"@,
            AppErrorView::Internal => "internal"@,
        }
    }

    /// The message of the answer. An internal error does not say what failed.
    pub open spec fn public_message(self) -> Seq<char> {
        match self {
            AppErrorView::BadRequest(message) => message,
            AppErrorView::Unauthorized => "missing or invalid bearer token"@,
            AppErrorView::NotFound(message) => message,
            AppErrorView::Conflict(message) => message,
            AppErrorView::Internal => "unexpected error"@,
        }
    }
}

impl AppError {
    /// The error in words.
    pub fn message(&self) -> (text: String)
        ensures
            text@ == self@.text(),
    {
        match self {
            AppError::BadRequest(message) => {
                let mut text = String::from_str("bad request: ");
                text.append(message.as_str());
                text
            },
            AppError::Unauthorized => String::from_str("unauthorized"),
            AppError::NotFound(message) => {
                let mut text = String::from_str("not found: ");
                text.append(message.as_str());
                text
            },
            AppError::Conflict(message) => {
                let mut text = String::from_str("conflict: ");
                text.append(message.as_str());
                text
            },
            AppError::Internal => String::from_str("internal server error"),
        }
    }

    /// What the error is answered with.
    pub fn into_response(self) -> (response: ErrorResponse)
        ensures
            response.status == self@.status(),
            response.error@ == self@.code(),
            response.message@ == self@.public_message(),
    {
        match self {
            AppError::BadRequest(message) => ErrorResponse {
                status: 400,
                error: owned("bad_request"),
                message,
            },
            AppError::Unauthorized => ErrorResponse {
                status: 401,
                error: owned("unauthorized"),
                message: owned("missing or invalid bearer token"),
            },
            AppError::NotFound(message) => ErrorResponse {
                status: 404,
                error: owned("not_found"),
                message,
            },
            AppError::Conflict(message) => ErrorResponse {
                status: 409,
                error: owned("conflict"),
                message,
            },
            AppError::Internal => ErrorResponse {
                status: 500,
                error: owned("internal"),
                message: owned("unexpected error"),
            },
        }
    }
}

/// How a statement against the store failed.
pub enum StoreFailure {
    /// A row that had to exist was not found.
    RowNotFound,
    /// The store refused the statement; `unique_violation` says that a value
    /// that must be unique already exists.
    Database { message: String, unique_violation: bool },
    /// Anything else.
    Other,
}

impl StoreFailure {
    /// The error that the failure becomes.
    pub open spec fn spec_app_error(self) -> AppErrorView {
        match self {
            StoreFailure::RowNotFound => AppErrorView::NotFound("record not found"@),
            StoreFailure::Database { message, unique_violation } => if unique_violation {
                AppErrorView::Conflict(message@)
            } else {
                AppErrorView::Internal
            },
            StoreFailure::Other => AppErrorView::Internal,
        }
    }

    /// The error that a failure of the store becomes: a missing row is not found, a
    /// value that exists already is a conflict, and the rest is internal.
    pub fn into_app_error(self) -> (error: AppError)
        ensures
            error@ == self.spec_app_error(),
    {
        match self {
            StoreFailure::RowNotFound => AppError::NotFound(owned("record not found")),
            StoreFailure::Database { message, unique_violation } => {
                if unique_violation {
                    AppError::Conflict(message)
                } else {
                    AppError::Internal
                }
            },
            StoreFailure::Other => AppError::Internal,
        }
    }
}

} // verus!
