//! Decidability classifier.
//!
//! Classifies each predicate by SMT theory before dispatch to Z3:
//!   LIA: Linear Integer Arithmetic
//!   LRA: Linear Real Arithmetic
//!   BV:  fixed-width Bit Vectors
//!
//! Full classification needs expression-level type inference to tell integer,
//! real and bit-vector operands apart; until then every predicate is
//! classified as LIA, the most common theory in Firmum predicates.

use vstd::prelude::*;
use crate::errors::CompilerError;
use crate::fir::PredicateNode;

verus! {

#[derive(Debug, Clone, Copy, PartialEq, Eq)]
pub enum Theory {
    Lia,
    Lra,
    Bv,
}

/// Classifies `predicate`; every predicate is currently LIA.
pub fn classify(predicate: &PredicateNode) -> (r: Result<Theory, CompilerError>)
    ensures
        r == Ok::<Theory, CompilerError>(Theory::Lia),
{
    Ok(Theory::Lia)
}

} // verus!
