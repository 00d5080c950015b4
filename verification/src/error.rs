//! Error taxonomy of the storage surface.

use vstd::prelude::*;

verus! {

/// Every failure a storage operation can surface.
///
/// "Not found" and "already exists" stay distinguishable at the boundary so
/// that callers can branch on them; every other backend failure carries the
/// backend's message opaquely.
#[derive(Debug)]
pub enum StorageError {
    /// No object lives at the named location.
    NotFound { path: String },
    /// An object already lives at the destination of a guarded copy or rename.
    AlreadyExists { path: String },
    /// An opaque, backend-specific failure.
    BackendError { message: String },
    /// A path string that does not parse into segments.
    PathSyntax { message: String },
    /// An operation on a handle that was already closed.
    ClosedHandle,
    /// A seek or read position that is negative or past the end of the file.
    PositionOutOfRange { message: String },
    /// A file operation the surface deliberately refuses.
    Unsupported { operation: String },
    /// A missing or malformed backend configuration value.
    Configuration { message: String },
    /// A root URL whose scheme or host names no known backend.
    UnresolvableBackend,
}

/// A failure while resolving backend credentials from options and
/// environment.
#[derive(Debug)]
pub enum ConfigError {
    /// A required configuration key is absent.
    Required { message: String },
    /// No combination of the given values forms a usable credential.
    MissingCredential,
    /// A SAS key that cannot be percent-decoded to text.
    Decode { message: String },
}

impl ConfigError {
    /// Build the error for a missing required key.
    pub fn required(message: String) -> (r: ConfigError)
        ensures
            r == (ConfigError::Required { message }),
    {
        ConfigError::Required { message }
    }

    /// Fold a configuration failure into the storage taxonomy.
    pub fn into_storage_error(self) -> (r: StorageError)
        ensures
            config_to_storage_ok(self, r),
    {
        match self {
            ConfigError::Required { message } => StorageError::Configuration { message },
            ConfigError::MissingCredential => StorageError::Configuration {
                message: String::from_str("failed to find valid credential"),
            },
            ConfigError::Decode { message } => StorageError::Configuration { message },
        }
    }
}

/// What `into_storage_error` returns for each configuration failure.
pub open spec fn config_to_storage_ok(e: ConfigError, r: StorageError) -> bool {
    match e {
        ConfigError::Required { message } => r == (StorageError::Configuration { message }),
        ConfigError::MissingCredential => r matches StorageError::Configuration { message }
            && message@ == "failed to find valid credential"@,
        ConfigError::Decode { message } => r == (StorageError::Configuration { message }),
    }
}

} // verus!
