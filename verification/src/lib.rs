//! A schema-driven recursive validation and construction engine.
//!
//! A declarative schema describing a structured model type — named
//! fields, nested sub-schemas, configuration — is compiled once into an
//! executable validator tree. The tree is then applied repeatedly to
//! runtime input, materializing a typed host object under one of four
//! construction modes: fresh build, revalidation of an already-typed
//! instance, in-place initialization, and in-place field reassignment.
//!
//! Host objects live in an explicit [`values::Store`]; names (fields,
//! classes, configuration options, hooks) are interned symbols.

pub mod compile;
pub mod config;
pub mod schema;
pub mod validator;
pub mod errors;
pub mod guard;
pub mod input;
pub mod laws;
pub mod model;
pub mod tree;
pub mod values;
