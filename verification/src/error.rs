//! The errors that a refused request or a failed session is answered with.

use vstd::prelude::*;

verus! {

/// An error answer: the kind decides the HTTP status, the text says why.
#[derive(Debug, PartialEq, Eq)]
pub enum AppError {
    /// Answered with 400.
    BadRequest(String),
    /// Answered with 401.
    Unauthorized(String),
    /// Answered with 403.
    Forbidden(String),
    /// Answered with 404.
    NotFound(String),
    /// Answered with 409.
    Conflict(String),
    /// Answered with 429.
    TooManyRequests(String),
    /// Answered with 500.
    Internal(String),
}

/// What an [`AppError`] says.
pub ghost enum AppErrorView {
    BadRequest(Seq<char>),
    Unauthorized(Seq<char>),
    Forbidden(Seq<char>),
    NotFound(Seq<char>),
    Conflict(Seq<char>),
    TooManyRequests(Seq<char>),
    Internal(Seq<char>),
}

impl View for AppError {
    type V = AppErrorView;

    open spec fn view(&self) -> AppErrorView {
        match self {
            AppError::BadRequest(text) => AppErrorView::BadRequest(text@),
            AppError::Unauthorized(text) => AppErrorView::Unauthorized(text@),
            AppError::Forbidden(text) => AppErrorView::Forbidden(text@),
            AppError::NotFound(text) => AppErrorView::NotFound(text@),
            AppError::Conflict(text) => AppErrorView::Conflict(text@),
            AppError::TooManyRequests(text) => AppErrorView::TooManyRequests(text@),
            AppError::Internal(text) => AppErrorView::Internal(text@),
        }
    }
}

impl AppErrorView {
    /// The HTTP status of the answer.
    pub open spec fn status(self) -> u16 {
        match self {
            AppErrorView::BadRequest(_) => 400,
            AppErrorView::Unauthorized(_) => 401,
            AppErrorView::Forbidden(_) => 403,
            AppErrorView::NotFound(_) => 404,
            AppErrorView::Conflict(_) => 409,
            AppErrorView::TooManyRequests(_) => 429,
            AppErrorView::Internal(_) => 500,
        }
    }

    /// The text of the answer.
    pub open spec fn text(self) -> Seq<char> {
        match self {
            AppErrorView::BadRequest(text) => text,
            AppErrorView::Unauthorized(text) => text,
            AppErrorView::Forbidden(text) => text,
            AppErrorView::NotFound(text) => text,
            AppErrorView::Conflict(text) => text,
            AppErrorView::TooManyRequests(text) => text,
            AppErrorView::Internal(text) => text,
        }
    }
}

impl AppError {
    /// The HTTP status of the answer.
    pub fn status_code(&self) -> (status: u16)
        ensures
            status == self@.status(),
    {
        match self {
            AppError::BadRequest(_) => 400,
            AppError::Unauthorized(_) => 401,
            AppError::Forbidden(_) => 403,
            AppError::NotFound(_) => 404,
            AppError::Conflict(_) => 409,
            AppError::TooManyRequests(_) => 429,
            AppError::Internal(_) => 500,
        }
    }

    /// The text of the answer.
    pub fn message(&self) -> (text: &str)
        ensures
            text@ == self@.text(),
    {
        match self {
            AppError::BadRequest(text) => text.as_str(),
            AppError::Unauthorized(text) => text.as_str(),
            AppError::Forbidden(text) => text.as_str(),
            AppError::NotFound(text) => text.as_str(),
            AppError::Conflict(text) => text.as_str(),
            AppError::TooManyRequests(text) => text.as_str(),
            AppError::Internal(text) => text.as_str(),
        }
    }
}

/// An error answer carries its text whole and the status of its kind.
pub proof fn law_error_answer(text: Seq<char>)
    ensures
        AppErrorView::BadRequest(text).text() == text,
        AppErrorView::Unauthorized(text).text() == text,
        AppErrorView::Forbidden(text).text() == text,
        AppErrorView::NotFound(text).text() == text,
        AppErrorView::Conflict(text).text() == text,
        AppErrorView::TooManyRequests(text).text() == text,
        AppErrorView::Internal(text).text() == text,
        AppErrorView::BadRequest(text).status() == 400,
        AppErrorView::Unauthorized(text).status() == 401,
        AppErrorView::Forbidden(text).status() == 403,
        AppErrorView::NotFound(text).status() == 404,
        AppErrorView::Conflict(text).status() == 409,
        AppErrorView::TooManyRequests(text).status() == 429,
        AppErrorView::Internal(text).status() == 500,
{
}

/// An error says the text that it holds.
pub proof fn law_error_holds_its_text(text: String)
    ensures
        AppError::BadRequest(text)@ == AppErrorView::BadRequest(text@),
        AppError::Unauthorized(text)@ == AppErrorView::Unauthorized(text@),
        AppError::Forbidden(text)@ == AppErrorView::Forbidden(text@),
        AppError::NotFound(text)@ == AppErrorView::NotFound(text@),
        AppError::Conflict(text)@ == AppErrorView::Conflict(text@),
        AppError::TooManyRequests(text)@ == AppErrorView::TooManyRequests(text@),
        AppError::Internal(text)@ == AppErrorView::Internal(text@),
{
}

} // verus!
