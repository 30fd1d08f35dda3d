//! Errors and warnings found in a schema, and the collection that gathers
//! them during one run.

pub mod collection;
pub mod error;
pub mod paint;
pub mod pretty_print;
pub mod warning;

pub use crate::span::Span;
pub use collection::Diagnostics;
pub use error::SchemaError;
pub use warning::SchemaWarning;
