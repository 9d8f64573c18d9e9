//! Staging of a parsed value into a raw expression: the purely
//! mechanical step between the external text parser and the analyzer.

use vstd::prelude::*;
use crate::value::EdnValue;
use crate::expr::Expr;
use crate::analyzer::{stage, spec_stage};

verus! {

/// Turns one parsed value into the raw expression the analyzer takes:
/// an identifier becomes a bare-identifier node, a parenthesized form a
/// raw list node, and everything else a literal node.
pub struct QueryParser;

impl QueryParser {
    /// Stages one parsed value; the surrounding driver parses the
    /// query text into a value first and analyzes the result after.
    pub fn edn_to_expr(value: &EdnValue) -> (r: Expr)
        ensures
            r@ == spec_stage(value@),
    {
        stage(value)
    }
}

} // verus!
