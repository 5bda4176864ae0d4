//! Error kinds, one closed enumeration per component, so callers can
//! match on the kind instead of a message.

use vstd::prelude::*;

verus! {

/// Failures while obtaining a version record.
#[derive(Clone, Copy, Debug, PartialEq, Eq, Structural)]
pub enum VersionError {
    /// The local version file could not be read.
    ConfigMissing,
    /// The local version file is not a JSON document with a string field
    /// named `version`.
    ConfigMalformed,
    /// The remote manifest could not be fetched.
    NetworkError,
    /// The remote manifest body is not a JSON document with a string field
    /// named `version`.
    RemoteMalformed,
}

/// Failures while fetching and persisting the installer script.
#[derive(Clone, Copy, Debug, PartialEq, Eq)]
pub enum FetchError {
    /// The download failed: `None` for a transport failure, `Some` for a
    /// non-success status, which it carries.
    DownloadFailed(Option<u16>),
    /// The body does not begin with an interpreter directive (`#!`).
    UntrustedContent,
    /// The validated script could not be written to its temporary file.
    PersistFailed,
}

/// Failures of the process runner.
#[derive(Clone, Copy, Debug, PartialEq, Eq, Structural)]
pub enum RunError {
    /// The executable could not be launched.
    SpawnFailed,
    /// A read from one of the output pipes failed.
    StreamReadError,
    /// The exit status could not be retrieved.
    WaitFailed,
}

/// Failures of the uninstall step.
#[derive(Clone, Copy, Debug, PartialEq, Eq, Structural)]
pub enum UninstallError {
    /// No candidate installation path exists.
    NotFound,
    /// The move-to-trash command exited with a failure.
    TrashMoveFailed,
}

/// Why a model name was rejected.
#[derive(Clone, Copy, Debug, PartialEq, Eq, Structural)]
pub enum ModelNameError {
    Empty,
    TooLong,
    EdgeWhitespace,
    InvalidChar,
}

} // verus!
