//! An extension host runtime and its data-marshalling layer.
//!
//! A host process loads compiled extension components, drives each one
//! through a serial command/response protocol carried as JSON text, keeps
//! many of them addressable through a registry, and normalizes the
//! heterogeneous JSON payloads their tools return into typed tables.

pub mod codec;
pub mod error;
pub mod extension;
pub mod json;
pub mod numbers;
pub mod parse;
pub mod protocol;
pub mod registry;
pub mod roundtrip;
pub mod session;
pub mod table;
mod text;

pub use error::{Error, ManifestError};
pub use extension::{Extension, Manifest};
pub use protocol::{
    ColumnDef, Command, CoreError, Id, ProtoDataFrame, Response, Schema, ToolInfo, ToolResult,
};
pub use registry::Registry;
pub use session::{Event, GuestMetadata, GuestOutcome};
pub use table::{normalize, DataError, Table};
