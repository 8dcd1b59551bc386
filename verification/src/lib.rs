//! A verified resolution engine for a bidirectional mapping between opaque
//! user identifiers ("uid") and phone numbers, backed by one SQLite table
//! whose two columns each carry a uniqueness constraint.
//!
//! The crate verifies the core logic: single and batch resolution, the
//! in-memory model of the mapping table, configuration validation (including
//! a bind-address parser), and the runtime configuration manager. Calls into
//! SQLite go through a small set of trusted wrappers in `storage`.

pub mod bind_addr;
pub mod chars;
pub mod config;
pub mod console;
pub mod engine;
pub mod errors;
pub mod state;
pub mod storage;
pub mod table;
