//! Stage 4: SMT orchestrator.
//!
//! Dispatches verification jobs in topological dependency order, through the
//! SMT-LIB 2 text interface of the z3 binary. Not built yet: every request
//! answers that the stage is not implemented.
pub mod cache;
pub mod emit;
pub mod run;

use vstd::prelude::*;
use crate::errors::CompilerError;
use crate::fir::Program;

verus! {

pub open spec fn not_yet(r: Result<(), CompilerError>, stage: Seq<char>) -> bool {
    r matches Err(CompilerError::NotYetImplemented(s)) && s@ == stage
}

/// Verifies every declaration of `program` with Z3 (not implemented yet).
pub fn orchestrate(program: &Program) -> (r: Result<(), CompilerError>)
    ensures
        not_yet(r, "SMT orchestrator (Stage 4)"@),
{
    Err(CompilerError::NotYetImplemented("SMT orchestrator (Stage 4)"))
}

} // verus!
