//! The error kinds that the library reports.
use vstd::prelude::*;
use crate::version::Edition;

verus! {

/// What went wrong, with the context that names where.
#[derive(Debug, Clone, PartialEq, Eq)]
pub enum McDataError {
    /// The version string names no known version.
    InvalidVersion(String),
    /// A version was resolved but is missing from a lookup.
    VersionNotFound { mc_version: String, major_version: String, edition: Edition },
    /// `dataPaths.json` has no entry for this edition, version and key.
    DataPathNotFound { mc_version: String, edition: Edition, data_key: String },
    /// The directory that `dataPaths.json` names holds no file of that stem.
    DataFileNotFound { data_key: String, path: String },
    /// A file or directory could not be read.
    IoError { path: String, message: String },
    /// A file could not be parsed as JSON of the expected shape.
    JsonParseError { path: String, message: String },
    /// The platform offers no cache directory.
    CacheDirNotFound,
    /// The archive could not be downloaded.
    DownloadError(String),
    /// The downloaded archive could not be read or unpacked.
    ArchiveError(String),
    /// After unpacking, the marker file is missing.
    DownloadVerificationFailed(String),
    /// An invariant was broken (editions mixed, a lock poisoned).
    Internal(String),
    /// A remembered earlier failure, returned again.
    CachedError(String),
}

impl McDataError {
    /// Whether this error says only that an optional data file is absent for
    /// a version.
    pub open spec fn spec_is_missing_file(&self) -> bool {
        match self {
            McDataError::DataPathNotFound { .. } => true,
            McDataError::DataFileNotFound { .. } => true,
            _ => false,
        }
    }

    pub fn is_missing_file(&self) -> (r: bool)
        ensures
            r == self.spec_is_missing_file(),
    {
        match self {
            McDataError::DataPathNotFound { .. } => true,
            McDataError::DataFileNotFound { .. } => true,
            _ => false,
        }
    }
}

} // verus!
