//! Host-side error types.

use vstd::prelude::*;

verus! {

/// Failures while reading an extension manifest.
#[derive(Debug, PartialEq)]
pub enum ManifestError {
    /// The manifest file could not be read or parsed.
    ReadError(String),
    /// A required section or field is missing: which kind, and which name.
    Missing(String, String),
}

/// Errors of the extension host.
#[derive(Debug, PartialEq)]
pub enum Error {
    /// The registry holds no extension under the given id.
    RegistryNotFound(String),
    /// The registry already holds an extension under the given id.
    RegistryAlreadyExists(String),
    /// The instance's command queue is gone; the command is handed back
    /// with the message.
    SendError(String),
    /// No extension binary was found at the given path.
    ExtensionNotFound(String),
    /// The extension binary could not be loaded.
    ExtensionLoadError(String),
    /// A manifest could not be read.
    ManifestError(ManifestError),
    /// Any other failure.
    Custom(String),
}

impl From<ManifestError> for Error {
    fn from(e: ManifestError) -> (r: Error) {
        Error::ManifestError(e)
    }
}

impl vstd::std_specs::convert::FromSpecImpl<ManifestError> for Error {
    open spec fn obeys_from_spec() -> bool {
        true
    }

    open spec fn from_spec(e: ManifestError) -> Error {
        Error::ManifestError(e)
    }
}

} // verus!
