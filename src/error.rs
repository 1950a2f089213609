//! The errors a request can end in.

use vstd::prelude::*;

verus! {

/// Why a request, or the server around it, failed. Errors that come from
/// outside this library carry their message.
#[derive(Debug)]
pub enum MultihookError {
    /// The body is not UTF-8; the decoder's message.
    UTF8Error(String),
    TomlSerializeError(String),
    TomlDeserializeError(String),
    /// A process could not be started, or another I/O failure.
    IoError(String),
    ConfigError(String),
    Hyper(String),
    /// The request's signature is missing or wrong.
    InvalidSecret,
    JsonError(String),
    /// The action ran and failed; what it wrote to standard error.
    ActionError(String),
}

pub type MultihookResult<T> = Result<T, MultihookError>;

impl MultihookError {
    /// The human-readable message of the error.
    pub open spec fn message_spec(&self) -> Seq<char> {
        match self {
            MultihookError::UTF8Error(m) => "Failed to parse body as utf8 string "@ + m@,
            MultihookError::TomlSerializeError(m) => m@,
            MultihookError::TomlDeserializeError(m) => m@,
            MultihookError::IoError(m) => m@,
            MultihookError::ConfigError(m) => m@,
            MultihookError::Hyper(m) => m@,
            MultihookError::InvalidSecret => "Secret validation failed."@,
            MultihookError::JsonError(m) => m@,
            MultihookError::ActionError(m) => "Action failed: "@ + m@,
        }
    }

    /// The human-readable message of the error.
    pub fn message(&self) -> (r: String)
        ensures
            r@ == self.message_spec(),
    {
        match self {
            MultihookError::UTF8Error(m) => String::from_str("Failed to parse body as utf8 string ").concat(
                m.as_str(),
            ),
            MultihookError::TomlSerializeError(m) => m.clone(),
            MultihookError::TomlDeserializeError(m) => m.clone(),
            MultihookError::IoError(m) => m.clone(),
            MultihookError::ConfigError(m) => m.clone(),
            MultihookError::Hyper(m) => m.clone(),
            MultihookError::InvalidSecret => String::from_str("Secret validation failed."),
            MultihookError::JsonError(m) => m.clone(),
            MultihookError::ActionError(m) => String::from_str("Action failed: ").concat(m.as_str()),
        }
    }
}

} // verus!
