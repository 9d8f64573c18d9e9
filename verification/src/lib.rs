//! A small query/filter engine over EDN-style structured data.
//!
//! A query is parsed into a raw expression, rewritten by the analyzer
//! (macro expansion to a fixed point, resolution of call shapes), and then
//! evaluated against an input document by a tree-walking interpreter.
//! Every data structure is modelled by a ghost view, and the analyzer and
//! evaluator are proved to implement their specification-level counterparts.

pub mod eq;
pub mod error;
pub mod analyzer;
pub mod builtins;
pub mod env;
pub mod evaluator;
pub mod expr;
pub mod float_bits;
pub mod formatter;
pub mod laws;
pub mod cli;
pub mod collection_formatter;
pub mod output;
pub mod primitives;
pub mod query;
pub mod registry;
pub mod value;

pub use value::EdnValue;
