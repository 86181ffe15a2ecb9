//! Error taxonomy of the session engine.

use vstd::prelude::*;

verus! {

/// Errors the engine can report.
///
/// `ConfigurationError` is fatal at startup: the relay topology could not be
/// composed (an empty message-relay list).  `InvalidRecipient` is fatal at
/// startup: the peer address did not parse.  `Generic` carries the text of
/// any other failure reported by a collaborator.
#[derive(Debug, Clone)]
pub enum AppError {
    ConfigurationError(String),
    InvalidRecipient(String),
    Generic(String),
}

impl AppError {
    /// The human-readable text carried by this error.
    pub fn message(&self) -> (r: &str)
        ensures
            r@ == self.text(),
    {
        match self {
            AppError::ConfigurationError(s) => s.as_str(),
            AppError::InvalidRecipient(s) => s.as_str(),
            AppError::Generic(s) => s.as_str(),
        }
    }

    /// The text carried by this error, as a mathematical value.
    pub open spec fn text(self) -> Seq<char> {
        match self {
            AppError::ConfigurationError(s) => s@,
            AppError::InvalidRecipient(s) => s@,
            AppError::Generic(s) => s@,
        }
    }
}

} // verus!
