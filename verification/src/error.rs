//! The library-wide error type. Every fallible operation reports one of these
//! variants; `code` is the stable machine-readable name the user interface
//! matches on and `message` the human-readable text.

use vstd::prelude::*;
use vstd::string::*;

verus! {

#[derive(Debug, Clone)]
pub enum AppError {
    InvalidUrl(String),
    DuplicateUrl,
    InvalidInput(String),
    NotFound,
    Db(String),
    Internal(String),
}

impl AppError {
    /// The variant name.
    pub open spec fn code_text(&self) -> Seq<char> {
        match self {
            AppError::InvalidUrl(_) => "InvalidUrl"@,
            AppError::DuplicateUrl => "DuplicateUrl"@,
            AppError::InvalidInput(_) => "InvalidInput"@,
            AppError::NotFound => "NotFound"@,
            AppError::Db(_) => "Db"@,
            AppError::Internal(_) => "Internal"@,
        }
    }

    /// The human-readable text of the error.
    pub open spec fn message_text(&self) -> Seq<char> {
        match self {
            AppError::InvalidUrl(m) => m@,
            AppError::DuplicateUrl => "a monitor for this URL already exists"@,
            AppError::InvalidInput(m) => m@,
            AppError::NotFound => "monitor not found"@,
            AppError::Db(m) => "database error: "@ + m@,
            AppError::Internal(m) => m@,
        }
    }

    /// Stable machine-readable code, the variant's name.
    pub fn code(&self) -> (r: &'static str)
        ensures
            r@ == self.code_text(),
    {
        match self {
            AppError::InvalidUrl(_) => "InvalidUrl",
            AppError::DuplicateUrl => "DuplicateUrl",
            AppError::InvalidInput(_) => "InvalidInput",
            AppError::NotFound => "NotFound",
            AppError::Db(_) => "Db",
            AppError::Internal(_) => "Internal",
        }
    }

    /// The human-readable message shown when the UI has no better text.
    pub fn message(&self) -> (r: String)
        ensures
            r@ == self.message_text(),
    {
        match self {
            AppError::InvalidUrl(m) => m.clone(),
            AppError::DuplicateUrl => String::from_str("a monitor for this URL already exists"),
            AppError::InvalidInput(m) => m.clone(),
            AppError::NotFound => String::from_str("monitor not found"),
            AppError::Db(m) => String::from_str("database error: ").concat(m.as_str()),
            AppError::Internal(m) => m.clone(),
        }
    }
}

/// How a database operation failed, as far as the monitor cares.
#[derive(Debug, Clone)]
pub enum DbFailure {
    /// A UNIQUE constraint rejected the write (`monitors.url` is the only
    /// application-level UNIQUE column).
    UniqueViolation,
    /// A query that expects a row found none.
    NoRows,
    /// Anything else, with the database's text.
    Other(String),
}

/// The error a database failure becomes: a duplicate URL, a missing
/// monitor, or a database error carrying the text.
pub fn from_db_failure(failure: DbFailure) -> (r: AppError)
    ensures
        match failure {
            DbFailure::UniqueViolation => r is DuplicateUrl,
            DbFailure::NoRows => r is NotFound,
            DbFailure::Other(text) => r matches AppError::Db(m) && m@ == text@,
        },
{
    match failure {
        DbFailure::UniqueViolation => AppError::DuplicateUrl,
        DbFailure::NoRows => AppError::NotFound,
        DbFailure::Other(text) => AppError::Db(text),
    }
}

} // verus!
