//! Generates typed source-code declarations from the named schemas of an
//! OpenRPC specification document.
//!
//! The library resolves schema nodes (references, `allOf` composition,
//! primitives and enumerated strings) into a normalized model of structs,
//! enums and transparent wrappers, applies a table of global type overrides
//! and per-profile field customizations, and normalizes all identifier and
//! documentation text. Reading the document and printing the rendered
//! declarations are left to the surrounding program.

pub mod naming;
pub mod overrides;
pub mod profile;
pub mod resolve;
pub mod generate;
pub mod render;
pub mod laws;
pub mod schema;
