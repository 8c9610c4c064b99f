//! The ways in which a search can fail.

use vstd::prelude::*;

verus! {

/// Why a search, or one step of it, produced no result.
#[derive(Debug, Clone, PartialEq, Eq)]
pub enum EgError {
    /// The registry knows no crate of this name.
    PackageNotFound(String),
    /// No published version of the crate satisfies the constraint.
    NoMatchingVersion { crate_name: String, constraint: String },
    /// The version constraint itself is malformed.
    VersionParseError(String),
    /// The search pattern is malformed.
    InvalidPattern(String),
    /// The archive download answered with a status that is no success.
    DownloadFailed(u16),
    /// The archive, or one of its entries, is corrupt.
    ExtractionFailed(String),
    /// An example file is not UTF-8 text.
    InvalidEncoding(String),
    /// The registry records no repository for the crate.
    NoRepositoryUrl(String),
    /// The repository URL names no owner and repository.
    InvalidRepositoryUrl(String),
    /// A file of the repository listing could not be decoded.
    EncodingError(String),
    /// A collaborator could not be reached or answered with a failure.
    Transport(String),
    /// Reading local data failed.
    Io(String),
}

} // verus!
