//! Read-only metadata about a dbt project's build graph: the normalizer for
//! the build tool's output, the manifest store, the node model with its
//! validation, and the lineage resolver.

pub mod dbt;
pub mod error;
pub mod fields;
pub mod json;
pub mod laws;
pub mod lineage;
pub mod models;
pub mod text;

pub use error::{DbtError, FieldFault, ValidationError};
pub use json::{Json, JsonValue};
