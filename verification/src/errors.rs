//! Error taxonomy of the library.

use vstd::prelude::*;

verus! {

/// Why an operation was refused or failed.
///
/// `IdentityConflict` and `PathSafety` guard against data loss and are raised
/// before any mutating work; `NotFound` means no snapshot matched a query;
/// the remaining variants carry failures of collaborators outside this crate.
#[derive(Debug, Clone, PartialEq, Eq)]
pub enum SproutError {
    /// A project or repository descriptor is missing or unusable.
    ConfigError,
    /// The branch's newest bundle belongs to a different project identity.
    IdentityConflict,
    /// No snapshot matches the query.
    NotFound,
    /// The uploads path escapes, or equals, the project root.
    PathSafety,
    /// The backup engine failed; the message is the engine's own.
    EngineError(String),
    /// The content-management tool failed; the message is the tool's own.
    ContentProviderError(String),
}

impl SproutError {
    /// A short human-readable description, for display by callers.
    pub fn message(&self) -> String {
        match self {
            SproutError::ConfigError => "missing or unparseable configuration".to_owned(),
            SproutError::IdentityConflict => {
                "the project uniqueness digest doesn't match the latest snapshot".to_owned()
            },
            SproutError::NotFound => "no matching snapshot was found".to_owned(),
            SproutError::PathSafety => {
                "the uploads path must resolve to a directory strictly inside the project".to_owned()
            },
            SproutError::EngineError(msg) => msg.clone(),
            SproutError::ContentProviderError(msg) => msg.clone(),
        }
    }
}

} // verus!
