//! Error vocabulary shared by the library.

use vstd::prelude::*;
use crate::text::{concat2, owned, push_str};

verus! {

/// Error variants emitted by Localref operations.
///
/// Outside error values (I/O, JSON, TOML) are carried as their message text.
#[derive(Clone, Debug, PartialEq, Eq)]
pub enum LocalrefError {
    /// Filesystem operation failed at `path`.
    Io { path: String, message: String },
    /// JSON serialization or deserialization failed.
    Json(String),
    /// TOML serialization failed.
    TomlSer(String),
    /// TOML deserialization failed.
    TomlDe(String),
    /// A required field is missing.
    MissingField(String),
    /// A filename or path component cannot be written safely.
    InvalidPathComponent { component: String, reason: String },
    /// A requested operation is not supported.
    Unsupported(String),
    /// A write conflict prevented an operation.
    Conflict(String),
    /// A rules configuration or query is invalid.
    Rule(String),
    /// Storage backend operation failed.
    Storage(String),
    /// A platform facility (such as a directory junction) could not be used.
    Platform(String),
}

/// Result alias for Localref operations.
pub type Result<T> = core::result::Result<T, LocalrefError>;

/// The human-readable text of an error.
pub open spec fn error_text(e: LocalrefError) -> Seq<char> {
    match e {
        LocalrefError::Io { path, message } => "filesystem operation failed at "@ + path@ + ": "@
            + message@,
        LocalrefError::Json(m) => "json error: "@ + m@,
        LocalrefError::TomlSer(m) => "toml serialization error: "@ + m@,
        LocalrefError::TomlDe(m) => "toml deserialization error: "@ + m@,
        LocalrefError::MissingField(m) => "missing required connector field: "@ + m@,
        LocalrefError::InvalidPathComponent { component, reason } => "invalid path component `"@
            + component@ + "`: "@ + reason@,
        LocalrefError::Unsupported(m) => "unsupported operation: "@ + m@,
        LocalrefError::Conflict(m) => "conflict: "@ + m@,
        LocalrefError::Rule(m) => "rule error: "@ + m@,
        LocalrefError::Storage(m) => "storage error: "@ + m@,
        LocalrefError::Platform(m) => "platform error: "@ + m@,
    }
}

impl LocalrefError {
    /// Render the error as text (the message shown to users and recorded on
    /// failed daemon tasks).
    pub fn message(&self) -> (r: String)
        ensures
            r@ == error_text(*self),
    {
        match self {
            LocalrefError::Io { path, message } => {
                let mut out = concat2("filesystem operation failed at ", path.as_str());
                push_str(&mut out, ": ");
                push_str(&mut out, message.as_str());
                out
            },
            LocalrefError::Json(m) => concat2("json error: ", m.as_str()),
            LocalrefError::TomlSer(m) => concat2("toml serialization error: ", m.as_str()),
            LocalrefError::TomlDe(m) => concat2("toml deserialization error: ", m.as_str()),
            LocalrefError::MissingField(m) => concat2(
                "missing required connector field: ",
                m.as_str(),
            ),
            LocalrefError::InvalidPathComponent { component, reason } => {
                let mut out = concat2("invalid path component `", component.as_str());
                push_str(&mut out, "`: ");
                push_str(&mut out, reason.as_str());
                out
            },
            LocalrefError::Unsupported(m) => concat2("unsupported operation: ", m.as_str()),
            LocalrefError::Conflict(m) => concat2("conflict: ", m.as_str()),
            LocalrefError::Rule(m) => concat2("rule error: ", m.as_str()),
            LocalrefError::Storage(m) => concat2("storage error: ", m.as_str()),
            LocalrefError::Platform(m) => concat2("platform error: ", m.as_str()),
        }
    }

    /// Wrap a failed filesystem operation with the path operated on.
    pub fn io(path: &str, message: &str) -> (r: LocalrefError)
        ensures
            r matches LocalrefError::Io { path: p, message: m } && p@ == path@ && m@ == message@,
    {
        LocalrefError::Io { path: owned(path), message: owned(message) }
    }
}

} // verus!
