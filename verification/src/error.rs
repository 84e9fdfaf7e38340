//! Errors of the journal, paths and profile layers.

use vstd::prelude::*;

verus! {

/// `std::io::Error`, carried opaque.
#[verifier::external_type_specification]
#[verifier::external_body]
pub struct ExIoError(std::io::Error);

/// `std::path::PathBuf`, carried opaque.
#[verifier::external_type_specification]
#[verifier::external_body]
pub struct ExPathBuf(std::path::PathBuf);

/// `serde_json::Error`, carried opaque.
#[verifier::external_type_specification]
#[verifier::external_body]
pub struct ExJsonError(serde_json::Error);

/// `rusqlite::Error`, carried opaque.
#[verifier::external_type_specification]
#[verifier::external_body]
pub struct ExSqliteError(rusqlite::Error);

/// Errors of the core crate.
#[derive(Debug)]
pub enum CoreError {
    /// Could not resolve a base path.
    BasePath(String),
    /// I/O error on a path.
    Io {
        /// The path the operation was on.
        path: std::path::PathBuf,
        /// The underlying error.
        source: std::io::Error,
    },
    /// JSON (de)serialisation error.
    Json(serde_json::Error),
    /// SQLite error.
    Sqlite(rusqlite::Error),
    /// A record carried a schema version this build does not know.
    UnknownSchema {
        /// The expected schema tag.
        expected: &'static str,
        /// The schema tag found.
        found: String,
    },
    /// A journal migration failed.
    Migration {
        /// The migration's version.
        version: u32,
        /// Why it failed.
        reason: String,
    },
    /// An internal invariant was violated.
    Invariant(String),
}

} // verus!
