//! Evaluation failures.
//!
//! The type checker is the single point where a user-facing "cannot resolve"
//! is reported (as `None`). Everything here is a programmer-visible fault: a
//! corrupt expression, a registry defect, or an input whose declared type
//! disagrees with its value.

use vstd::prelude::*;

verus! {

/// A fatal evaluation or invariant failure.
#[derive(Debug, Clone, Copy, PartialEq, Eq, Structural)]
pub enum EvalError {
    /// A value reached a cast that is not defined for its type.
    UnsupportedCast,
    /// A value did not have the shape an operation expected.
    TypeMismatch,
    /// Parallel columns or builders had different lengths.
    LengthMismatch,
    /// An array was indexed outside its bounds.
    IndexOutOfRange,
    /// A column reference named no column of the environment.
    UnknownColumn,
    /// An expression still carried an unresolved generic type at evaluation.
    UnresolvedGeneric,
    /// A function was applied to the wrong number of arguments.
    ArityMismatch,
    /// A column would have grown past the addressable size.
    CapacityOverflow,
}

impl EvalError {
    /// A short diagnostic name for the failure.
    pub fn message(&self) -> (r: &'static str)
        ensures
            r@.len() > 0,
    {
        let r = match self {
            EvalError::UnsupportedCast => "unsupported cast",
            EvalError::TypeMismatch => "type mismatch",
            EvalError::LengthMismatch => "length mismatch",
            EvalError::IndexOutOfRange => "index out of range",
            EvalError::UnknownColumn => "unknown column",
            EvalError::UnresolvedGeneric => "unresolved generic type",
            EvalError::ArityMismatch => "wrong number of arguments",
            EvalError::CapacityOverflow => "column too large",
        };
        proof {
            reveal_strlit("unsupported cast");
            reveal_strlit("type mismatch");
            reveal_strlit("length mismatch");
            reveal_strlit("index out of range");
            reveal_strlit("unknown column");
            reveal_strlit("unresolved generic type");
            reveal_strlit("wrong number of arguments");
            reveal_strlit("column too large");
        }
        r
    }
}

} // verus!
