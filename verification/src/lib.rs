//! Rapina: an embedded HTTP server core.
//!
//! The library holds the verified logic of the framework: route-pattern
//! parsing and specificity-ordered matching, the CORS decision rules, the
//! shutdown coordinator's state machine, the type-keyed application state
//! container, and the text generators of the scaffolding tools.

pub mod add;
pub mod app;
pub mod codegen;
pub mod context;
pub mod cors;
pub mod import;
pub mod router;
pub mod schema;
pub mod server;
pub mod state;
pub mod text;
pub mod urls;
