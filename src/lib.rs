//! Environment overlays for structured configuration.
//!
//! A schema of nested groups and typed leaves is described as plain data.
//! Each leaf is tied to an environment variable whose name is derived from
//! its path in the schema; when that variable is set, its text is converted
//! to the leaf's type and replaces the leaf's current value.
pub mod convert;
pub mod hydrate;
pub mod literal;
pub mod naming;
pub mod scanner;
pub mod schema;
