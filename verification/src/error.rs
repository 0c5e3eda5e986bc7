//! Error kinds shared by every component of the engine.

use vstd::prelude::*;
use vstd::string::StringExecFns;

verus! {

/// The engine's error type.
///
/// `BadRequest` marks malformed or invalid client input, `Internal` an
/// unexpected processing failure, and `ConfigError` an invalid or missing
/// node descriptor. Every variant carries a human-readable message naming
/// the originating cause.
#[derive(Debug, Clone)]
pub enum AppError {
    BadRequest(String),
    Internal(String),
    ConfigError(String),
}

impl AppError {
    /// The full error text: the variant's prefix followed by its message.
    pub open spec fn message_spec(&self) -> Seq<char> {
        match self {
            AppError::BadRequest(m) => "Bad request: "@ + m@,
            AppError::Internal(m) => "Internal error: "@ + m@,
            AppError::ConfigError(m) => "Configuration error: "@ + m@,
        }
    }

    /// Render the error as human-readable text, prefixed with its kind.
    pub fn message(&self) -> (r: String)
        ensures
            r@ == self.message_spec(),
    {
        match self {
            AppError::BadRequest(m) => String::from_str("Bad request: ").concat(m.as_str()),
            AppError::Internal(m) => String::from_str("Internal error: ").concat(m.as_str()),
            AppError::ConfigError(m) => String::from_str("Configuration error: ").concat(
                m.as_str(),
            ),
        }
    }
}

} // verus!
