//! Errors reported by the application layer.

use vstd::prelude::*;

verus! {

/// Error categories of the application service, each with its message.
#[derive(Debug)]
pub enum AppError {
    Validation(String),
    NotFound(String),
    Conflict(String),
    External(String),
    Storage(String),
    Cancelled(String),
    /// An error raised from a plain message.
    Other(String),
    /// A database failure, with its text.
    Db(String),
    /// An I/O failure, with its text.
    Io(String),
    /// A domain error with a stable code for callers to act on, and its
    /// structured details as JSON text when it has any.
    Domain { code: String, message: String, retryable: bool, details: Option<String> },
}

pub type AppResult<T> = Result<T, AppError>;

/// The category of an `AppError`, without its message.
#[derive(Debug, Clone, Copy, PartialEq, Eq, Structural)]
pub enum ErrorKind {
    Validation,
    NotFound,
    Conflict,
    External,
    Storage,
    Cancelled,
    Other,
    Db,
    Io,
    Domain,
}

/// `e` is the error of this category with this message.
pub open spec fn error_is(e: AppError, expected: (ErrorKind, Seq<char>)) -> bool {
    e.kind() == expected.0 && e.message() == expected.1
}

impl AppError {
    /// The category of the error.
    pub open spec fn kind(&self) -> ErrorKind {
        match self {
            AppError::Validation(_) => ErrorKind::Validation,
            AppError::NotFound(_) => ErrorKind::NotFound,
            AppError::Conflict(_) => ErrorKind::Conflict,
            AppError::External(_) => ErrorKind::External,
            AppError::Storage(_) => ErrorKind::Storage,
            AppError::Cancelled(_) => ErrorKind::Cancelled,
            AppError::Other(_) => ErrorKind::Other,
            AppError::Db(_) => ErrorKind::Db,
            AppError::Io(_) => ErrorKind::Io,
            AppError::Domain { .. } => ErrorKind::Domain,
        }
    }

    /// The message carried by the error.
    pub open spec fn message(&self) -> Seq<char> {
        match self {
            AppError::Validation(m) => m@,
            AppError::NotFound(m) => m@,
            AppError::Conflict(m) => m@,
            AppError::External(m) => m@,
            AppError::Storage(m) => m@,
            AppError::Cancelled(m) => m@,
            AppError::Other(m) => m@,
            AppError::Db(m) => m@,
            AppError::Io(m) => m@,
            AppError::Domain { message, .. } => message@,
        }
    }

    /// The text of the error, as it is shown to callers.
    pub fn to_message(&self) -> (r: String)
        ensures
            r@ == self.message(),
    {
        match self {
            AppError::Validation(m) => m.clone(),
            AppError::NotFound(m) => m.clone(),
            AppError::Conflict(m) => m.clone(),
            AppError::External(m) => m.clone(),
            AppError::Storage(m) => m.clone(),
            AppError::Cancelled(m) => m.clone(),
            AppError::Other(m) => m.clone(),
            AppError::Db(m) => m.clone(),
            AppError::Io(m) => m.clone(),
            AppError::Domain { message, .. } => message.clone(),
        }
    }
}

/// A message with a value between two fixed texts.
pub fn message_around(prefix: &str, value: &str, suffix: &str) -> (r: String)
    ensures
        r@ == prefix@ + value@ + suffix@,
{
    let mut r = String::from_str(prefix);
    r.append(value);
    r.append(suffix);
    r
}

/// A message naming two values: a fixed text, the first value, a fixed
/// text, the second value.
pub fn message_pair(prefix: &str, first: &str, middle: &str, second: &str) -> (r: String)
    ensures
        r@ == prefix@ + first@ + middle@ + second@,
{
    let mut r = String::from_str(prefix);
    r.append(first);
    r.append(middle);
    r.append(second);
    r
}

/// A message made of a fixed text followed by a value.
pub fn message_with(prefix: &str, value: &str) -> (r: String)
    ensures
        r@ == prefix@ + value@,
{
    let mut r = String::from_str(prefix);
    r.append(value);
    r
}

} // verus!
