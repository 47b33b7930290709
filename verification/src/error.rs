//! Errors of the client, as plain values.

use vstd::prelude::*;
use crate::text::{to_decimal, decimal_digits};

verus! {

/// The kinds of I/O failure that the retry policy tells apart.
#[derive(Debug, Clone, Copy, PartialEq, Eq, Structural)]
pub enum IoErrorKind {
    ConnectionReset,
    ConnectionAborted,
    UnexpectedEof,
    TimedOut,
    WouldBlock,
    Other,
}

/// An error of the client. Errors that come from other libraries carry their
/// message text; I/O errors also carry their kind.
#[derive(Debug, Clone, PartialEq, Eq)]
pub enum AppError {
    Ftp(String),
    Io(IoErrorKind, String),
    Json(String),
    NoConnection,
    Validation(String),
    Config(String),
    Keyring(String),
    Timeout(u64),
    Connection(String),
    Cancelled,
}

/// The message shown for a validation error with text `m`.
pub open spec fn validation_text(m: Seq<char>) -> Seq<char> {
    "Validation error: "@ + m
}

/// The message shown for an error.
pub open spec fn error_message(e: AppError) -> Seq<char> {
    match e {
        AppError::Ftp(m) => "FTP error: "@ + m@,
        AppError::Io(_, m) => "I/O error: "@ + m@,
        AppError::Json(m) => "JSON error: "@ + m@,
        AppError::NoConnection => "No connection selected"@,
        AppError::Validation(m) => validation_text(m@),
        AppError::Config(m) => "Config error: "@ + m@,
        AppError::Keyring(m) => "Keyring error: "@ + m@,
        AppError::Timeout(s) => "Operation timed out after "@ + decimal_digits(s as nat) + "s"@,
        AppError::Connection(m) => "Connection error: "@ + m@,
        AppError::Cancelled => "Operation cancelled"@,
    }
}

fn prefixed(prefix: &str, m: &String) -> (r: String)
    ensures
        r@ == prefix@ + m@,
{
    let mut r = prefix.to_string();
    r.append(m.as_str());
    r
}

impl AppError {
    /// The message shown for this error.
    pub fn message(&self) -> (r: String)
        ensures
            r@ == error_message(*self),
    {
        match self {
            AppError::Ftp(m) => prefixed("FTP error: ", m),
            AppError::Io(_, m) => prefixed("I/O error: ", m),
            AppError::Json(m) => prefixed("JSON error: ", m),
            AppError::NoConnection => "No connection selected".to_string(),
            AppError::Validation(m) => prefixed("Validation error: ", m),
            AppError::Config(m) => prefixed("Config error: ", m),
            AppError::Keyring(m) => prefixed("Keyring error: ", m),
            AppError::Timeout(s) => {
                let mut r = "Operation timed out after ".to_string();
                let d = to_decimal(*s);
                r.append(d.as_str());
                r.append("s");
                r
            },
            AppError::Connection(m) => prefixed("Connection error: ", m),
            AppError::Cancelled => "Operation cancelled".to_string(),
        }
    }

    /// The same error, as a value of its own.
    pub fn duplicate(&self) -> (r: Self)
        ensures
            r == *self,
    {
        match self {
            AppError::Ftp(m) => AppError::Ftp(m.clone()),
            AppError::Io(k, m) => AppError::Io(*k, m.clone()),
            AppError::Json(m) => AppError::Json(m.clone()),
            AppError::NoConnection => AppError::NoConnection,
            AppError::Validation(m) => AppError::Validation(m.clone()),
            AppError::Config(m) => AppError::Config(m.clone()),
            AppError::Keyring(m) => AppError::Keyring(m.clone()),
            AppError::Timeout(s) => AppError::Timeout(*s),
            AppError::Connection(m) => AppError::Connection(m.clone()),
            AppError::Cancelled => AppError::Cancelled,
        }
    }
}

/// Result of an operation of the client.
pub type AppResult<T> = Result<T, AppError>;

/// An error as carried in UI messages.
#[derive(Debug, Clone)]
pub struct AppErrorMsg(pub AppError);

impl From<AppError> for AppErrorMsg {
    fn from(err: AppError) -> (r: Self) {
        AppErrorMsg(err)
    }
}

impl vstd::std_specs::convert::FromSpecImpl<AppError> for AppErrorMsg {
    open spec fn obeys_from_spec() -> bool {
        true
    }

    open spec fn from_spec(err: AppError) -> Self {
        AppErrorMsg(err)
    }
}

impl AppErrorMsg {
    /// The message shown for the error.
    pub fn message(&self) -> (r: String)
        ensures
            r@ == error_message(self.0),
    {
        self.0.message()
    }
}

} // verus!
