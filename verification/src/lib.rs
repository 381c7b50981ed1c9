//! A configuration-resolution engine.
//!
//! The engine turns a flat set of named string parameters (typically
//! environment variables) into a strongly typed configuration value, driven by
//! a declarative per-field schema.  Failures are never short-circuited: every
//! failing field of a record is reported, in declaration order, inside a
//! structured error tree that mirrors the schema's shape.

pub mod config;
pub mod config_error;
pub mod config_value_decoder;
pub mod decimal;
pub mod decoders;
pub mod env_overrides;
pub mod error_print_mode;
pub mod field_path;
pub mod key_source;
pub mod laws;
pub mod list_printer;
pub mod net_addr;
pub mod numeric;
pub mod resolver;
pub mod schema;
pub mod secret;
pub mod table_printer;
pub mod text;
