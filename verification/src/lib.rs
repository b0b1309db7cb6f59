//! Compiler for workflow manifest files.
//!
//! The library discovers manifest candidates among supplied source files,
//! parses each one into a structured document, normalizes the result into a
//! canonical `Workflow` record, aggregates the records into a
//! `WorkflowCollection` with a derived search index and tag set, and emits
//! deterministic data, schema and search-index artifacts.

pub mod collection;
pub mod compile;
pub mod doc;
pub mod emit;
pub mod extract;
pub mod laws;
pub mod model;
pub mod normalize;
pub mod schema;
pub mod search;
pub mod text;
