//! Configuration model and loading pipeline for an HTTP(S) server.
//!
//! The crate has two parts, loaded bottom-up:
//!
//! - [`cors`]: the typed, immutable CORS configuration value, its builder,
//!   and the conversion from the loosely-typed file representation.
//! - [`file`]: the top-level server configuration read from a TOML document,
//!   with its required-field and type checking.
//! - [`ip`]: the IP address values that the `host` field of a configuration
//!   document is parsed into.

pub mod cors;
pub mod file;
pub mod ip;
pub mod toml_doc;
