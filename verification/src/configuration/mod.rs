//! The validated configuration of a schema: its datasources, and how their
//! URLs are resolved.

pub mod configuration_struct;
pub mod datasource;
pub mod string_from_env;

pub use configuration_struct::Configuration;
pub use datasource::{Datasource, UrlValidationError};
pub use string_from_env::StringFromEnvVar;
