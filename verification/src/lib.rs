//! A uniform, backend-agnostic view of object storage, scoped to a
//! caller-chosen root prefix and exposed through file-like read and write
//! handles.
//!
//! The crate verifies the path-translation rules of the prefix scope, the
//! state machines of the input and output handles, the recursive tree
//! walker, and the resolution of backend kind and credentials from a root
//! URL and an option map.

pub mod builder;
pub mod config;
pub mod error;
pub mod file;
pub mod filesystem;
pub mod memory;
pub mod path;
pub mod prefix;
pub mod strutil;
pub mod utils;

pub use error::ConfigError;
pub use error::StorageError;
