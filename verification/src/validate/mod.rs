//! The rules that a parsed schema is held to.

pub mod datasource_loader;
