//! Generation engine for record builders.
//!
//! Given a schema description of a record type (a name plus an ordered list of
//! fields, each with a declared type and a set of annotations), the engine
//! classifies each field's type shape, resolves the recognized directives on
//! it, and assembles a `BuilderPlan`: a structural description of a companion
//! builder type (storage members, accessor methods, and the constructor
//! expression of its build operation). An external layer parses concrete
//! syntax into the schema description and renders the plan back out.

pub mod directives;
pub mod interp;
pub mod laws;
pub mod plan;
pub mod schema;
pub mod synth;
pub mod views;
