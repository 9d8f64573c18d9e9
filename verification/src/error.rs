//! The engine's error taxonomy: structural misuse of the query language
//! is a query error; an operation that received a wrongly shaped value
//! is a type error. Both are terminal — the first failure anywhere in a
//! sub-expression aborts evaluation of that document.

use vstd::prelude::*;
use vstd::string::StringExecFns;

verus! {

/// The kind of a failure, which is what the contracts of the analyzer
/// and evaluator pin down; messages are presentation only.
#[derive(Debug, PartialEq, Eq, Structural, Clone, Copy)]
pub enum ErrKind {
    Query,
    Type,
}

#[derive(Debug, PartialEq)]
pub enum EqError {
    /// Structural misuse: empty list, unknown function, wrong arity,
    /// malformed call head, unbound identifier, a raw node surviving
    /// into evaluation, lambda arity mismatch.
    QueryError { message: String },
    /// An operation received a wrongly shaped value.
    TypeError { expected: String, actual: String },
}

pub type EqResult<T> = Result<T, EqError>;

impl EqError {
    pub open spec fn kind(&self) -> ErrKind {
        match self {
            EqError::QueryError { .. } => ErrKind::Query,
            EqError::TypeError { .. } => ErrKind::Type,
        }
    }

    pub fn query_error(message: &str) -> (e: EqError)
        ensures
            e.kind() == ErrKind::Query,
    {
        EqError::QueryError { message: message.to_owned() }
    }

    pub fn type_error(expected: &str, actual: &str) -> (e: EqError)
        ensures
            e.kind() == ErrKind::Type,
    {
        EqError::TypeError { expected: expected.to_owned(), actual: actual.to_owned() }
    }

    /// The failure rendered as text, for the surrounding driver to print.
    pub fn describe(&self) -> (r: String)
        ensures
            match self {
                EqError::QueryError { message } => r@ == "Query error: "@ + message@,
                EqError::TypeError { expected, actual } => r@ == "Type error: expected "@
                    + expected@ + ", got "@ + actual@,
            },
    {
        match self {
            EqError::QueryError { message } => {
                let mut s = "Query error: ".to_owned();
                s.append(message.as_str());
                s
            },
            EqError::TypeError { expected, actual } => {
                let mut s = "Type error: expected ".to_owned();
                s.append(expected.as_str());
                s.append(", got ");
                s.append(actual.as_str());
                s
            },
        }
    }
}

} // verus!
