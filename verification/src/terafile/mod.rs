//! Semantic model and diagnostics for Tera template source.
//!
//! The model records which Tera constructs a template holds and where they
//! appear; diagnostics describe violations found in the template's syntax
//! tree and text.

pub mod analysis;
pub mod checks;
pub mod diagnostics;
pub mod lowering;
pub mod model;
