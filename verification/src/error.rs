//! Driver errors and their structured details.
use vstd::prelude::*;
use crate::text::cat;

verus! {

/// The view of an optional string.
pub open spec fn opt_view(o: Option<String>) -> Option<Seq<char>> {
    match o {
        Some(s) => Some(s@),
        None => None,
    }
}

/// A copy of an optional string with the same view.
pub fn opt_copy(o: &Option<String>) -> (r: Option<String>)
    ensures
        opt_view(r) == opt_view(*o),
{
    match o {
        Some(s) => Some(s.clone()),
        None => None,
    }
}

/// A user-facing error with optional code, hint and detail.
#[derive(Debug)]
pub struct FormattedError {
    pub message: String,
    pub code: Option<String>,
    pub hint: Option<String>,
    pub detail: Option<String>,
    pub retriable: bool,
}

pub ghost struct FormattedErrorView {
    pub message: Seq<char>,
    pub code: Option<Seq<char>>,
    pub hint: Option<Seq<char>>,
    pub detail: Option<Seq<char>>,
    pub retriable: bool,
}

/// The view of a freshly made error carrying only a message.
pub open spec fn plain_error(message: Seq<char>) -> FormattedErrorView {
    FormattedErrorView { message, code: None, hint: None, detail: None, retriable: false }
}

impl FormattedError {
    pub open spec fn view(&self) -> FormattedErrorView {
        FormattedErrorView {
            message: self.message@,
            code: opt_view(self.code),
            hint: opt_view(self.hint),
            detail: opt_view(self.detail),
            retriable: self.retriable,
        }
    }

    pub fn new(message: String) -> (r: FormattedError)
        ensures
            r@ == plain_error(message@),
    {
        FormattedError { message, code: None, hint: None, detail: None, retriable: false }
    }

    pub fn with_code(self, code: String) -> (r: FormattedError)
        ensures
            r@ == (FormattedErrorView { code: Some(code@), ..self@ }),
    {
        FormattedError { code: Some(code), ..self }
    }

    pub fn with_hint(self, hint: String) -> (r: FormattedError)
        ensures
            r@ == (FormattedErrorView { hint: Some(hint@), ..self@ }),
    {
        FormattedError { hint: Some(hint), ..self }
    }

    pub fn with_detail(self, detail: String) -> (r: FormattedError)
        ensures
            r@ == (FormattedErrorView { detail: Some(detail@), ..self@ }),
    {
        FormattedError { detail: Some(detail), ..self }
    }

    pub fn with_retriable(self, retriable: bool) -> (r: FormattedError)
        ensures
            r@ == (FormattedErrorView { retriable, ..self@ }),
    {
        FormattedError { retriable, ..self }
    }
}

/// Errors that database drivers report.
#[derive(Debug)]
pub enum DbError {
    SyntaxError(FormattedError),
    QueryFailed(FormattedError),
    ConnectionFailed(FormattedError),
    AuthFailed(FormattedError),
    PermissionDenied(FormattedError),
    ObjectNotFound(FormattedError),
    NotSupported(String),
    InvalidProfile(String),
    IoError(String),
}

pub ghost enum DbErrorView {
    SyntaxError(FormattedErrorView),
    QueryFailed(FormattedErrorView),
    ConnectionFailed(FormattedErrorView),
    AuthFailed(FormattedErrorView),
    PermissionDenied(FormattedErrorView),
    ObjectNotFound(FormattedErrorView),
    NotSupported(Seq<char>),
    InvalidProfile(Seq<char>),
    IoError(Seq<char>),
}

/// The view of `DbError::query_failed(message)`.
pub open spec fn query_failed_view(message: Seq<char>) -> DbErrorView {
    DbErrorView::QueryFailed(plain_error(message))
}

/// The view of `DbError::syntax_error(message)`.
pub open spec fn syntax_error_view(message: Seq<char>) -> DbErrorView {
    DbErrorView::SyntaxError(plain_error(message))
}

/// The view of `DbError::object_not_found(message)`.
pub open spec fn object_not_found_view(message: Seq<char>) -> DbErrorView {
    DbErrorView::ObjectNotFound(plain_error(message))
}

/// The view of `DbError::connection_failed(message)`.
pub open spec fn connection_failed_view(message: Seq<char>) -> DbErrorView {
    DbErrorView::ConnectionFailed(plain_error(message))
}

/// The text that displaying an error shows.
pub open spec fn spec_error_text(e: DbErrorView) -> Seq<char> {
    match e {
        DbErrorView::SyntaxError(f) => "Syntax error: "@ + f.message,
        DbErrorView::QueryFailed(f) => "Query failed: "@ + f.message,
        DbErrorView::ConnectionFailed(f) => "Connection failed: "@ + f.message,
        DbErrorView::AuthFailed(f) => "Authentication failed: "@ + f.message,
        DbErrorView::PermissionDenied(f) => "Permission denied: "@ + f.message,
        DbErrorView::ObjectNotFound(f) => "Object not found: "@ + f.message,
        DbErrorView::NotSupported(m) => "Not supported: "@ + m,
        DbErrorView::InvalidProfile(m) => "Invalid profile: "@ + m,
        DbErrorView::IoError(m) => "I/O error: "@ + m,
    }
}

impl DbError {
    pub open spec fn view(&self) -> DbErrorView {
        match self {
            DbError::SyntaxError(f) => DbErrorView::SyntaxError(f@),
            DbError::QueryFailed(f) => DbErrorView::QueryFailed(f@),
            DbError::ConnectionFailed(f) => DbErrorView::ConnectionFailed(f@),
            DbError::AuthFailed(f) => DbErrorView::AuthFailed(f@),
            DbError::PermissionDenied(f) => DbErrorView::PermissionDenied(f@),
            DbError::ObjectNotFound(f) => DbErrorView::ObjectNotFound(f@),
            DbError::NotSupported(m) => DbErrorView::NotSupported(m@),
            DbError::InvalidProfile(m) => DbErrorView::InvalidProfile(m@),
            DbError::IoError(m) => DbErrorView::IoError(m@),
        }
    }

    pub fn query_failed(message: String) -> (r: DbError)
        ensures
            r@ == query_failed_view(message@),
    {
        DbError::QueryFailed(FormattedError::new(message))
    }

    pub fn syntax_error(message: String) -> (r: DbError)
        ensures
            r@ == syntax_error_view(message@),
    {
        DbError::SyntaxError(FormattedError::new(message))
    }

    pub fn object_not_found(message: String) -> (r: DbError)
        ensures
            r@ == object_not_found_view(message@),
    {
        DbError::ObjectNotFound(FormattedError::new(message))
    }

    pub fn connection_failed(message: String) -> (r: DbError)
        ensures
            r@ == connection_failed_view(message@),
    {
        DbError::ConnectionFailed(FormattedError::new(message))
    }

    /// The text that displaying the error shows: a kind prefix and the message.
    pub fn to_display(&self) -> (r: String)
        ensures
            r@ == spec_error_text(self@),
    {
        match self {
            DbError::SyntaxError(f) => cat("Syntax error: ", f.message.as_str()),
            DbError::QueryFailed(f) => cat("Query failed: ", f.message.as_str()),
            DbError::ConnectionFailed(f) => cat("Connection failed: ", f.message.as_str()),
            DbError::AuthFailed(f) => cat("Authentication failed: ", f.message.as_str()),
            DbError::PermissionDenied(f) => cat("Permission denied: ", f.message.as_str()),
            DbError::ObjectNotFound(f) => cat("Object not found: ", f.message.as_str()),
            DbError::NotSupported(m) => cat("Not supported: ", m.as_str()),
            DbError::InvalidProfile(m) => cat("Invalid profile: ", m.as_str()),
            DbError::IoError(m) => cat("I/O error: ", m.as_str()),
        }
    }
}

} // verus!
