//! Source-to-source transformation engine for tagged unions.
//!
//! Given the model of one enum declaration and a comma-separated
//! configuration argument list, the engine classifies each variant by its
//! field shape, synthesizes identifiers for generated declarations, and
//! emits a rewritten union together with extracted record types,
//! bidirectional conversion pairs, and an optional companion tag
//! enumeration.  Host-syntax parsing and token rendering are left to the
//! surrounding, unverified glue.

pub mod ast;
pub mod common;
pub mod config;
pub mod conversion;
pub mod enum_tag;
pub mod extract_variant;
pub mod tagged;
pub mod variant_wrapper;
